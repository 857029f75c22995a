//! Tasks: what a request asks for, and how it is carried out one statement
//! at a time.
//!
//! [`start`] turns a task into its first step. A step either asks the
//! gateway to execute a statement, and says what the task waits for, or is
//! the answer. [`resume`] takes what the task waits for and what came of
//! the statement, and gives the next step. No task asks more than three
//! statements.
use vstd::prelude::*;
use crate::gateway::{Event, EventView, Statement};
use crate::models::sale::{Sale, SaleRecord};
use crate::models::{Row, Table};
use crate::ordering::{arrange, arranged};
use crate::reply::{Body, BodyView, Failure, Reply, ReplyView};
use crate::reports::{monthly, monthly_of, report, report_of, total, total_of};
use crate::repository::Changes;
use crate::sales::{join, joined};
use crate::schema::{overlaid, overlay, CreateSale, UpdateSale};

verus! {

/// What a reading of all sales is for.
#[derive(Debug, Clone, Copy, PartialEq)]
pub enum Purpose {
    /// The list of sales, the newest first.
    Listing,
    /// The report by product, on the sales made between two instants (both
    /// included) or on all of them.
    Report(Option<(i64, i64)>),
}

/// What a request asks for. An identifier that came in a path is `None`
/// where the path holds no identifier.
#[derive(Debug, Clone, PartialEq)]
pub enum Task {
    /// List the rows of a table, in the order of that table.
    List(Table),
    /// Read one row.
    Get(Table, Option<u128>),
    /// Add a row; answer with the row itself (`echo`) or with its
    /// identifier.
    Create { row: Row, echo: bool },
    /// Change the row of the changes' table that has the identifier.
    Patch { id: Option<u128>, changes: Changes },
    /// Remove one row.
    Delete(Table, Option<u128>),
    /// Read all sales with the names of their products.
    Sales(Purpose),
    /// Report by product on the sales made between two instants (both
    /// included); `None` where the request names a day that the calendar
    /// does not have.
    ReportBetween(Option<(i64, i64)>),
    /// Read one sale with the name of its product.
    GetSale(Option<u128>),
    /// Record a sale under `id`, made at `now`.
    CreateSale { id: u128, now: i64, input: CreateSale },
    /// Change a sale and price it anew.
    UpdateSale { id: Option<u128>, input: UpdateSale },
    /// Count the rows of a table.
    Count(Table),
    /// Add up the amounts of the rows of a table.
    Total(Table),
    /// Add up the sales of a year by month.
    Monthly { year: Option<i32> },
}

/// What a task waits for, with what it needs to go on.
#[derive(Debug, Clone, PartialEq)]
pub enum Wait {
    /// The rows to list.
    Listed,
    /// The row to show.
    Fetched,
    /// The insertion of `row`.
    Inserted { row: Row, echo: bool },
    /// The row to change.
    PatchFetched { changes: Changes },
    /// The writing of the changed `row`.
    PatchWritten { row: Row },
    /// The removal.
    Deleted,
    /// All sales; the products come next.
    SalesListed { purpose: Purpose },
    /// All products; the sales are held.
    ProductsListed { purpose: Purpose },
    /// The sale to show; its product comes next.
    SaleFetched,
    /// The product of the sale to show.
    SaleProductFetched { record: SaleRecord },
    /// The product of the sale to record.
    SalePriced { id: u128, now: i64, input: CreateSale },
    /// The insertion of the sale.
    SaleInserted { id: u128 },
    /// The sale to change; its product comes next.
    SaleUpdateFetched { input: UpdateSale },
    /// The product that the changed sale is of.
    SaleUpdatePriced { existing: SaleRecord, product_id: u128, quantity: i32 },
    /// The writing of the changed sale.
    SaleUpdated { sale: Sale },
    /// The rows to count.
    Counted,
    /// The rows whose amounts to add up.
    Totalled,
    /// All sales, to add up by month.
    MonthlyListed { year: Option<i32> },
}

/// A task between two statements: what it waits for, and the rows it has
/// read and still needs.
#[derive(Debug, Clone, PartialEq)]
pub struct Pending {
    pub wait: Wait,
    pub held: Vec<Row>,
}

/// A [`Pending`] with its rows as a sequence.
pub struct PendingView {
    pub wait: Wait,
    pub held: Seq<Row>,
}

/// What a task does next.
#[derive(Debug, Clone, PartialEq)]
pub enum Step {
    /// Have the statement executed, then resume with what came of it.
    Ask(Statement, Pending),
    /// Answer.
    Done(Reply),
}

/// A [`Step`] with its lists as sequences.
pub enum StepView {
    Ask(Statement, PendingView),
    Done(ReplyView),
}

impl View for Pending {
    type V = PendingView;

    open spec fn view(&self) -> PendingView {
        PendingView { wait: self.wait, held: self.held@ }
    }
}

impl View for Step {
    type V = StepView;

    open spec fn view(&self) -> StepView {
        match *self {
            Step::Ask(statement, pending) => StepView::Ask(statement, pending@),
            Step::Done(reply) => StepView::Done(reply@),
        }
    }
}

/// The step that asks a statement and holds no rows.
pub open spec fn asking(statement: Statement, wait: Wait) -> StepView {
    StepView::Ask(statement, PendingView { wait, held: Seq::empty() })
}

/// The step that answers with a failure.
pub open spec fn failing(failure: Failure) -> StepView {
    StepView::Done(ReplyView::Failed(failure))
}

/// The step that answers with a success.
pub open spec fn succeeding(body: BodyView) -> StepView {
    StepView::Done(ReplyView::Success(body))
}

/// The first step of a task.
///
/// A task that names a row by an identifier fails with `Validation` where
/// there is none, and so does a report between days where there are none.
/// Every other task asks its first statement.
pub open spec fn started(task: Task) -> StepView {
    match task {
        Task::List(table) => asking(Statement::List(table), Wait::Listed),
        Task::Get(table, Some(id)) => asking(Statement::Find(table, id), Wait::Fetched),
        Task::Create { row, echo } => asking(Statement::Insert(row), Wait::Inserted { row, echo }),
        Task::Patch { id: Some(id), changes } => asking(
            Statement::Find(changes.table(), id),
            Wait::PatchFetched { changes },
        ),
        Task::Delete(table, Some(id)) => asking(Statement::Delete(table, id), Wait::Deleted),
        Task::Sales(purpose) => asking(
            Statement::List(Table::Sales),
            Wait::SalesListed { purpose },
        ),
        Task::ReportBetween(Some(range)) => asking(
            Statement::List(Table::Sales),
            Wait::SalesListed { purpose: Purpose::Report(Some(range)) },
        ),
        Task::GetSale(Some(id)) => asking(Statement::Find(Table::Sales, id), Wait::SaleFetched),
        Task::CreateSale { id, now, input } => asking(
            Statement::Find(Table::Products, input.product_id),
            Wait::SalePriced { id, now, input },
        ),
        Task::UpdateSale { id: Some(id), input } => asking(
            Statement::Find(Table::Sales, id),
            Wait::SaleUpdateFetched { input },
        ),
        Task::Count(table) => asking(Statement::List(table), Wait::Counted),
        Task::Total(table) => asking(Statement::List(table), Wait::Totalled),
        Task::Monthly { year } => asking(
            Statement::List(Table::Sales),
            Wait::MonthlyListed { year },
        ),
        Task::Get(_, None) | Task::Patch { id: None, .. } | Task::Delete(_, None) | Task::GetSale(
            None,
        ) | Task::UpdateSale { id: None, .. } | Task::ReportBetween(None) => failing(
            Failure::Validation,
        ),
    }
}

/// The step that follows an event.
///
/// A failed statement, and an event of another kind than the statement
/// gives, end the task with `Storage`. Otherwise:
/// - a row looked for and not there ends the task with `NotFound`, or with
///   `Reference` where it is the product of a sale to be written;
/// - a change or a removal that touched no row ends it with `NotFound`, and
///   an insertion that touched none with `Storage`;
/// - a row read in order to be changed is written back with the changes
///   merged in;
/// - a sale to be recorded or changed is written with its total computed
///   from the price just read, unless it is then of no units or fewer: that
///   ends the task with `Validation`, and nothing is written;
/// - rows read are answered in the order of their table, sales with the
///   names of their products, and figures as the reports define them.
pub open spec fn resumed(pending: PendingView, event: EventView) -> StepView {
    match (pending.wait, event) {
        (Wait::Listed, EventView::Rows(rows)) => succeeding(BodyView::Rows(arranged(rows))),
        (Wait::Fetched, EventView::Found(Some(row))) => succeeding(BodyView::Row(row)),
        (Wait::Fetched, EventView::Found(None)) => failing(Failure::NotFound),
        (Wait::Inserted { row, echo }, EventView::Affected(count)) => if count == 0 {
            failing(Failure::Storage)
        } else if echo {
            StepView::Done(ReplyView::Created(BodyView::Row(row)))
        } else {
            StepView::Done(ReplyView::Created(BodyView::Id(row.id())))
        },
        (Wait::PatchFetched { changes }, EventView::Found(Some(existing))) => match changes.applied(
            existing,
        ) {
            Some(row) => asking(Statement::Update(row), Wait::PatchWritten { row }),
            None => failing(Failure::Storage),
        },
        (Wait::PatchFetched { .. }, EventView::Found(None)) => failing(Failure::NotFound),
        (Wait::PatchWritten { row }, EventView::Affected(count)) => if count == 0 {
            failing(Failure::NotFound)
        } else {
            succeeding(BodyView::Row(row))
        },
        (Wait::Deleted, EventView::Affected(count)) => if count == 0 {
            failing(Failure::NotFound)
        } else {
            StepView::Done(ReplyView::NoContent)
        },
        (Wait::SalesListed { purpose }, EventView::Rows(sales)) => StepView::Ask(
            Statement::List(Table::Products),
            PendingView { wait: Wait::ProductsListed { purpose }, held: sales },
        ),
        (Wait::ProductsListed { purpose: Purpose::Listing }, EventView::Rows(products)) => succeeding(
            BodyView::Sales(joined(arranged(pending.held), products)),
        ),
        (
            Wait::ProductsListed { purpose: Purpose::Report(range) },
            EventView::Rows(products),
        ) => match report_of(joined(pending.held, products), range) {
            Some(lines) => succeeding(BodyView::Report(lines)),
            None => failing(Failure::Storage),
        },
        (Wait::SaleFetched, EventView::Found(Some(Row::Sale(record)))) => asking(
            Statement::Find(Table::Products, record.product_id),
            Wait::SaleProductFetched { record },
        ),
        (Wait::SaleFetched, EventView::Found(None)) => failing(Failure::NotFound),
        (
            Wait::SaleProductFetched { record },
            EventView::Found(Some(Row::Product(product))),
        ) => succeeding(BodyView::Sale(record.named(product.name))),
        (Wait::SaleProductFetched { .. }, EventView::Found(None)) => failing(Failure::NotFound),
        (
            Wait::SalePriced { id, now, input },
            EventView::Found(Some(Row::Product(product))),
        ) => if input.quantity > 0 {
            asking(
                Statement::Insert(Row::Sale(SaleRecord::created(id, now, input, product.price))),
                Wait::SaleInserted { id },
            )
        } else {
            failing(Failure::Validation)
        },
        (Wait::SalePriced { .. }, EventView::Found(None)) => failing(Failure::Reference),
        (Wait::SaleInserted { id }, EventView::Affected(count)) => if count == 0 {
            failing(Failure::Storage)
        } else {
            StepView::Done(ReplyView::Created(BodyView::Id(id)))
        },
        (Wait::SaleUpdateFetched { input }, EventView::Found(Some(Row::Sale(existing)))) => {
            let product_id = overlaid(input.product_id, existing.product_id);
            let quantity = overlaid(input.quantity, existing.quantity);
            asking(
                Statement::Find(Table::Products, product_id),
                Wait::SaleUpdatePriced { existing, product_id, quantity },
            )
        },
        (Wait::SaleUpdateFetched { .. }, EventView::Found(None)) => failing(Failure::NotFound),
        (
            Wait::SaleUpdatePriced { existing, product_id, quantity },
            EventView::Found(Some(Row::Product(product))),
        ) => if quantity > 0 {
            let record = existing.repriced(product_id, quantity, product.price);
            asking(
                Statement::Update(Row::Sale(record)),
                Wait::SaleUpdated { sale: record.named(product.name) },
            )
        } else {
            failing(Failure::Validation)
        },
        (Wait::SaleUpdatePriced { .. }, EventView::Found(None)) => failing(Failure::Reference),
        (Wait::SaleUpdated { sale }, EventView::Affected(count)) => if count == 0 {
            failing(Failure::NotFound)
        } else {
            succeeding(BodyView::Sale(sale))
        },
        (Wait::Counted, EventView::Rows(rows)) => succeeding(BodyView::Count(rows.len() as u64)),
        (Wait::Totalled, EventView::Rows(rows)) => match total_of(rows) {
            Some(sum) => succeeding(BodyView::Amount(sum)),
            None => failing(Failure::Storage),
        },
        (Wait::MonthlyListed { year }, EventView::Rows(rows)) => match monthly_of(rows, year) {
            Some(months) => succeeding(BodyView::Monthly(months)),
            None => failing(Failure::Storage),
        },
        _ => failing(Failure::Storage),
    }
}

/// How many statements a task may still ask once the one it waits for has
/// been answered.
pub open spec fn statements_left(wait: Wait) -> nat {
    match wait {
        Wait::SaleUpdateFetched { .. } => 2,
        Wait::PatchFetched { .. } | Wait::SalesListed { .. } | Wait::SaleFetched | Wait::SalePriced {
            ..
        } | Wait::SaleUpdatePriced { .. } => 1,
        _ => 0,
    }
}

/// Every step of a task leaves it fewer statements to ask.
pub proof fn lemma_resumed_gets_closer(pending: PendingView, event: EventView)
    ensures
        resumed(pending, event) matches StepView::Ask(_, next) ==> statements_left(next.wait)
            < statements_left(pending.wait),
{
}

fn ask(statement: Statement, wait: Wait) -> (step: Step)
    ensures
        step@ == asking(statement, wait),
{
    Step::Ask(statement, Pending { wait, held: Vec::new() })
}

fn fail(failure: Failure) -> (step: Step)
    ensures
        step@ == failing(failure),
{
    Step::Done(Reply::Failed(failure))
}

fn succeed(body: Body) -> (step: Step)
    ensures
        step@ == succeeding(body@),
{
    Step::Done(Reply::Success(body))
}

/// Takes the first step of a task.
pub fn start(task: Task) -> (step: Step)
    ensures
        step@ == started(task),
{
    match task {
        Task::List(table) => ask(Statement::List(table), Wait::Listed),
        Task::Get(table, Some(id)) => ask(Statement::Find(table, id), Wait::Fetched),
        Task::Create { row, echo } => {
            let copy = row.duplicate();
            ask(Statement::Insert(copy), Wait::Inserted { row, echo })
        },
        Task::Patch { id: Some(id), changes } => {
            let table = changes.table();
            ask(Statement::Find(table, id), Wait::PatchFetched { changes })
        },
        Task::Delete(table, Some(id)) => ask(Statement::Delete(table, id), Wait::Deleted),
        Task::Sales(purpose) => ask(Statement::List(Table::Sales), Wait::SalesListed { purpose }),
        Task::ReportBetween(Some(range)) => ask(
            Statement::List(Table::Sales),
            Wait::SalesListed { purpose: Purpose::Report(Some(range)) },
        ),
        Task::ReportBetween(None) => fail(Failure::Validation),
        Task::GetSale(Some(id)) => ask(Statement::Find(Table::Sales, id), Wait::SaleFetched),
        Task::CreateSale { id, now, input } => ask(
            Statement::Find(Table::Products, input.product_id),
            Wait::SalePriced { id, now, input },
        ),
        Task::UpdateSale { id: Some(id), input } => ask(
            Statement::Find(Table::Sales, id),
            Wait::SaleUpdateFetched { input },
        ),
        Task::Count(table) => ask(Statement::List(table), Wait::Counted),
        Task::Total(table) => ask(Statement::List(table), Wait::Totalled),
        Task::Monthly { year } => ask(Statement::List(Table::Sales), Wait::MonthlyListed { year }),
        Task::Get(_, None) => fail(Failure::Validation),
        Task::Patch { id: None, .. } => fail(Failure::Validation),
        Task::Delete(_, None) => fail(Failure::Validation),
        Task::GetSale(None) => fail(Failure::Validation),
        Task::UpdateSale { id: None, .. } => fail(Failure::Validation),
    }
}

/// Takes the step that follows an event.
pub fn resume(pending: Pending, event: Event) -> (step: Step)
    ensures
        step@ == resumed(pending@, event@),
{
    let Pending { wait, held } = pending;
    match (wait, event) {
        (Wait::Listed, Event::Rows(rows)) => succeed(Body::Rows(arrange(rows))),
        (Wait::Fetched, Event::Found(Some(row))) => succeed(Body::Row(row)),
        (Wait::Fetched, Event::Found(None)) => fail(Failure::NotFound),
        (Wait::Inserted { row, echo }, Event::Affected(count)) => {
            if count == 0 {
                fail(Failure::Storage)
            } else if echo {
                Step::Done(Reply::Created(Body::Row(row)))
            } else {
                Step::Done(Reply::Created(Body::Id(row.id())))
            }
        },
        (Wait::PatchFetched { changes }, Event::Found(Some(existing))) => {
            match changes.apply(existing) {
                Some(row) => {
                    let copy = row.duplicate();
                    ask(Statement::Update(copy), Wait::PatchWritten { row })
                },
                None => fail(Failure::Storage),
            }
        },
        (Wait::PatchFetched { .. }, Event::Found(None)) => fail(Failure::NotFound),
        (Wait::PatchWritten { row }, Event::Affected(count)) => {
            if count == 0 {
                fail(Failure::NotFound)
            } else {
                succeed(Body::Row(row))
            }
        },
        (Wait::Deleted, Event::Affected(count)) => {
            if count == 0 {
                fail(Failure::NotFound)
            } else {
                Step::Done(Reply::NoContent)
            }
        },
        (Wait::SalesListed { purpose }, Event::Rows(sales)) => Step::Ask(
            Statement::List(Table::Products),
            Pending { wait: Wait::ProductsListed { purpose }, held: sales },
        ),
        (Wait::ProductsListed { purpose: Purpose::Listing }, Event::Rows(products)) => {
            let sales = arrange(held);
            succeed(Body::Sales(join(&sales, &products)))
        },
        (Wait::ProductsListed { purpose: Purpose::Report(range) }, Event::Rows(products)) => {
            let sales = join(&held, &products);
            match report(&sales, range) {
                Some(lines) => succeed(Body::Report(lines)),
                None => fail(Failure::Storage),
            }
        },
        (Wait::SaleFetched, Event::Found(Some(Row::Sale(record)))) => ask(
            Statement::Find(Table::Products, record.product_id),
            Wait::SaleProductFetched { record },
        ),
        (Wait::SaleFetched, Event::Found(None)) => fail(Failure::NotFound),
        (Wait::SaleProductFetched { record }, Event::Found(Some(Row::Product(product)))) => succeed(
            Body::Sale(record.name(product.name)),
        ),
        (Wait::SaleProductFetched { .. }, Event::Found(None)) => fail(Failure::NotFound),
        (Wait::SalePriced { id, now, input }, Event::Found(Some(Row::Product(product)))) => {
            if input.quantity > 0 {
                ask(
                    Statement::Insert(Row::Sale(SaleRecord::create(id, now, input, product.price))),
                    Wait::SaleInserted { id },
                )
            } else {
                fail(Failure::Validation)
            }
        },
        (Wait::SalePriced { .. }, Event::Found(None)) => fail(Failure::Reference),
        (Wait::SaleInserted { id }, Event::Affected(count)) => {
            if count == 0 {
                fail(Failure::Storage)
            } else {
                Step::Done(Reply::Created(Body::Id(id)))
            }
        },
        (Wait::SaleUpdateFetched { input }, Event::Found(Some(Row::Sale(existing)))) => {
            let product_id = overlay(input.product_id, existing.product_id);
            let quantity = overlay(input.quantity, existing.quantity);
            ask(
                Statement::Find(Table::Products, product_id),
                Wait::SaleUpdatePriced { existing, product_id, quantity },
            )
        },
        (Wait::SaleUpdateFetched { .. }, Event::Found(None)) => fail(Failure::NotFound),
        (
            Wait::SaleUpdatePriced { existing, product_id, quantity },
            Event::Found(Some(Row::Product(product))),
        ) => {
            if quantity > 0 {
                let record = existing.reprice(product_id, quantity, product.price);
                ask(
                    Statement::Update(Row::Sale(record)),
                    Wait::SaleUpdated { sale: record.name(product.name) },
                )
            } else {
                fail(Failure::Validation)
            }
        },
        (Wait::SaleUpdatePriced { .. }, Event::Found(None)) => fail(Failure::Reference),
        (Wait::SaleUpdated { sale }, Event::Affected(count)) => {
            if count == 0 {
                fail(Failure::NotFound)
            } else {
                succeed(Body::Sale(sale))
            }
        },
        (Wait::Counted, Event::Rows(rows)) => succeed(Body::Count(rows.len() as u64)),
        (Wait::Totalled, Event::Rows(rows)) => {
            match total(&rows) {
                Some(sum) => succeed(Body::Amount(sum)),
                None => fail(Failure::Storage),
            }
        },
        (Wait::MonthlyListed { year }, Event::Rows(rows)) => {
            match monthly(&rows, year) {
                Some(months) => succeed(Body::Monthly(months)),
                None => fail(Failure::Storage),
            }
        },
        _ => fail(Failure::Storage),
    }
}

} // verus!

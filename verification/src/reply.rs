//! What a finished task answers.
use vstd::prelude::*;
use crate::models::sale::Sale;
use crate::models::Row;
use crate::reports::{MonthlySale, SalesReport};

verus! {

/// Why a task did not do what was asked.
#[derive(Debug, Clone, Copy, PartialEq, Eq, Structural)]
pub enum Failure {
    /// The request is malformed: an identifier that is none, a quantity
    /// that is not positive.
    Validation,
    /// The request names a row of another table that does not exist.
    Reference,
    /// The row to read, change or remove does not exist.
    NotFound,
    /// The store failed.
    Storage,
}

/// The content of an answer.
#[derive(Debug, Clone, PartialEq)]
pub enum Body {
    Row(Row),
    Rows(Vec<Row>),
    Id(u128),
    Sale(Sale),
    Sales(Vec<Sale>),
    Count(u64),
    Amount(i128),
    Monthly(Vec<MonthlySale>),
    Report(Vec<SalesReport>),
}

/// The answer to a request.
#[derive(Debug, Clone, PartialEq)]
pub enum Reply {
    Success(Body),
    Created(Body),
    NoContent,
    Failed(Failure),
}

/// A [`Body`] with its lists as sequences.
pub enum BodyView {
    Row(Row),
    Rows(Seq<Row>),
    Id(u128),
    Sale(Sale),
    Sales(Seq<Sale>),
    Count(u64),
    Amount(i128),
    Monthly(Seq<MonthlySale>),
    Report(Seq<SalesReport>),
}

/// A [`Reply`] with its lists as sequences.
pub enum ReplyView {
    Success(BodyView),
    Created(BodyView),
    NoContent,
    Failed(Failure),
}

impl View for Body {
    type V = BodyView;

    open spec fn view(&self) -> BodyView {
        match *self {
            Body::Row(row) => BodyView::Row(row),
            Body::Rows(rows) => BodyView::Rows(rows@),
            Body::Id(id) => BodyView::Id(id),
            Body::Sale(sale) => BodyView::Sale(sale),
            Body::Sales(sales) => BodyView::Sales(sales@),
            Body::Count(count) => BodyView::Count(count),
            Body::Amount(amount) => BodyView::Amount(amount),
            Body::Monthly(months) => BodyView::Monthly(months@),
            Body::Report(lines) => BodyView::Report(lines@),
        }
    }
}

impl View for Reply {
    type V = ReplyView;

    open spec fn view(&self) -> ReplyView {
        match *self {
            Reply::Success(body) => ReplyView::Success(body@),
            Reply::Created(body) => ReplyView::Created(body@),
            Reply::NoContent => ReplyView::NoContent,
            Reply::Failed(failure) => ReplyView::Failed(failure),
        }
    }
}

/// The HTTP status that goes with an answer.
pub open spec fn status_of(reply: ReplyView) -> u16 {
    match reply {
        ReplyView::Success(_) => 200,
        ReplyView::Created(_) => 201,
        ReplyView::NoContent => 204,
        ReplyView::Failed(Failure::Validation) => 400,
        ReplyView::Failed(Failure::Reference) => 400,
        ReplyView::Failed(Failure::NotFound) => 404,
        ReplyView::Failed(Failure::Storage) => 500,
    }
}

impl Reply {
    /// The HTTP status that goes with the answer: 200, 201 or 204 on
    /// success, 400 for a request that cannot be served as it is, 404 for a
    /// row that does not exist, 500 where the store failed.
    pub fn status(&self) -> (code: u16)
        ensures
            code == status_of(self@),
    {
        match self {
            Reply::Success(_) => 200,
            Reply::Created(_) => 201,
            Reply::NoContent => 204,
            Reply::Failed(Failure::Validation) => 400,
            Reply::Failed(Failure::Reference) => 400,
            Reply::Failed(Failure::NotFound) => 404,
            Reply::Failed(Failure::Storage) => 500,
        }
    }
}

} // verus!

//! The core of a small-business back office: clients, products, suppliers,
//! expenses, payments and sales, kept in a relational store behind a
//! persistence gateway.
//!
//! Nothing here performs I/O. A request is turned into a [`task::Task`] by
//! one of the [`handlers`]; the task is advanced one [`gateway::Statement`]
//! at a time, and whoever owns the connection to the store executes each
//! statement and hands its [`gateway::Event`] back, until the task gives its
//! [`reply::Reply`]. [`store::Store`] is a gateway that keeps its rows in
//! memory, and [`runner::run`] carries a task out against it;
//! [`guarantees`] says what then holds.
//!
//! Money is counted in hundredths of the currency unit, instants in
//! microseconds and dates in days since 1970-01-01 00:00 UTC.
pub mod calendar;
pub mod gateway;
pub mod guarantees;
pub mod handlers;
pub mod ids;
pub mod listing;
pub mod models;
pub mod ordering;
pub mod reply;
pub mod repository;
pub mod reports;
pub mod runner;
pub mod sales;
pub mod schema;
pub mod store;
pub mod task;

//! One function for each request that the service answers: it reads what
//! the request carries and says which task is to be carried out.
pub mod client_handler;
pub mod dashboard_handler;
pub mod expense_handler;
pub mod payment_handler;
pub mod product_handler;
pub mod reports_handler;
pub mod sale_handler;
pub mod suppliers_handler;

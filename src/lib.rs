//! A book service's logic: the book model, publication dates as a volumes
//! catalog sends them, a table of books with the store's semantics, and what
//! each HTTP route answers, with the import of books from the catalog.
pub mod dates;
pub mod decimal;
pub mod handlers;
pub mod import;
pub mod models;
pub mod store;

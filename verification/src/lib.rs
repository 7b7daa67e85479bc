//! Incremental loading of a remotely paged collection.
//!
//! [`ResultPage`] walks a paged resource one page at a time and keeps
//! everything fetched so far. [`Pagination`] gates the continuation that
//! loads more, so that at most one is in flight.

pub mod control;
pub mod controller;
pub mod page;
pub mod result_page;
pub mod window;

pub use crate::controller::Pagination;
pub use crate::page::Page;
pub use crate::result_page::ResultPage;

//! A scheduled multi-channel notification dispatcher, verified with Verus.
//!
//! Clients submit notifications bound for a recipient on a channel (push or
//! email) with a scheduled delivery time, priority and recipient timezone.
//! The library holds the dispatch engine: the due-set query with quiet-hours
//! filtering, the bounded send pipeline with retry and status transitions,
//! and the deduplicated publication ledger of the message bus. The
//! surrounding process supplies what only it can: the HTTP surface, the
//! backing store and broker connections, and the outcome of each publish.

use vstd::prelude::*;

pub mod bus;
pub mod digits;
pub mod errors;
pub mod handler;
pub mod laws;
pub mod notification;
pub mod options;
pub mod service;
pub mod store;
pub mod timezone;

pub use errors::AppError;
pub use errors::AppResult;

verus! {

} // verus!

//! A message board with an audit trail.
//!
//! Each identity holds at most one message, which it may create, read,
//! replace and remove. Every replacement and every removal is entered in a
//! ledger that only the board's owner may read. The board asks nothing of
//! its surroundings: who is calling and what time it is are handed in, and
//! what is to be announced is handed back.

pub mod access;
pub mod account;
pub mod contract;
pub mod error;
pub mod events;
pub mod laws;
pub mod message;
pub mod model;
pub mod records;
pub mod roster;
pub mod store;

pub use crate::account::{AccountId, Timestamp};
pub use crate::contract::CrudContract;
pub use crate::error::CrudError;
pub use crate::events::{MessageCreated, MessageDeleted, MessageUpdated};
pub use crate::records::{DeleteHistory, Messages, UpdateHistory};

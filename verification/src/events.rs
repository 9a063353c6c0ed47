use vstd::prelude::*;

use crate::account::AccountId;

verus! {

/// Announces that `sender` now holds `message`, having held none before.
#[derive(Debug, PartialEq, Eq)]
pub struct MessageCreated {
    pub sender: AccountId,
    pub message: String,
}

/// Announces that `sender` replaced their message by `new_message`.
#[derive(Debug, PartialEq, Eq)]
pub struct MessageUpdated {
    pub sender: AccountId,
    pub new_message: String,
}

/// Announces that `sender` no longer holds a message.
#[derive(Debug, PartialEq, Eq)]
pub struct MessageDeleted {
    pub sender: AccountId,
}

} // verus!

use vstd::prelude::*;

use crate::account::{AccountId, Timestamp};

verus! {

/// One holder and the message they currently hold, as listings hand it out.
#[derive(Debug, PartialEq, Eq)]
pub struct Messages {
    pub sender: AccountId,
    pub message: String,
}

/// What a `Messages` value says: who holds which text.
pub struct MessageRecord {
    pub sender: AccountId,
    pub message: Seq<char>,
}

impl View for Messages {
    type V = MessageRecord;

    open spec fn view(&self) -> MessageRecord {
        MessageRecord { sender: self.sender, message: self.message@ }
    }
}

/// One replacement of a message: who replaced which text by which, and when.
#[derive(Debug, PartialEq, Eq)]
pub struct UpdateHistory {
    pub sender: AccountId,
    pub old_message: String,
    pub new_message: String,
    pub timestamp: Timestamp,
}

/// What an `UpdateHistory` value says.
pub struct UpdateRecord {
    pub sender: AccountId,
    pub old_message: Seq<char>,
    pub new_message: Seq<char>,
    pub timestamp: Timestamp,
}

impl View for UpdateHistory {
    type V = UpdateRecord;

    open spec fn view(&self) -> UpdateRecord {
        UpdateRecord {
            sender: self.sender,
            old_message: self.old_message@,
            new_message: self.new_message@,
            timestamp: self.timestamp,
        }
    }
}

impl Clone for UpdateHistory {
    fn clone(&self) -> (copy: Self)
        ensures
            copy == *self,
    {
        UpdateHistory {
            sender: self.sender,
            old_message: self.old_message.clone(),
            new_message: self.new_message.clone(),
            timestamp: self.timestamp,
        }
    }
}

/// One removal of a message: who removed which text, and when.
#[derive(Debug, PartialEq, Eq)]
pub struct DeleteHistory {
    pub sender: AccountId,
    pub message: String,
    pub timestamp: Timestamp,
}

/// What a `DeleteHistory` value says.
pub struct DeleteRecord {
    pub sender: AccountId,
    pub message: Seq<char>,
    pub timestamp: Timestamp,
}

impl View for DeleteHistory {
    type V = DeleteRecord;

    open spec fn view(&self) -> DeleteRecord {
        DeleteRecord { sender: self.sender, message: self.message@, timestamp: self.timestamp }
    }
}

impl Clone for DeleteHistory {
    fn clone(&self) -> (copy: Self)
        ensures
            copy == *self,
    {
        DeleteHistory {
            sender: self.sender,
            message: self.message.clone(),
            timestamp: self.timestamp,
        }
    }
}

/// What a sequence of listed messages says, entry by entry.
pub open spec fn message_records(list: Seq<Messages>) -> Seq<MessageRecord> {
    list.map_values(|m: Messages| m@)
}

/// What an update ledger says, entry by entry, oldest first.
pub open spec fn update_records(log: Seq<UpdateHistory>) -> Seq<UpdateRecord> {
    log.map_values(|e: UpdateHistory| e@)
}

/// What a delete ledger says, entry by entry, oldest first.
pub open spec fn delete_records(log: Seq<DeleteHistory>) -> Seq<DeleteRecord> {
    log.map_values(|e: DeleteHistory| e@)
}

} // verus!

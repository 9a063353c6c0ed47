use vstd::prelude::*;

use crate::access::owner_gate;
use crate::account::{AccountId, Timestamp};
use crate::error::CrudError;
use crate::message::message_fault;
use crate::records::{DeleteRecord, MessageRecord, UpdateRecord};
use crate::roster::without;

verus! {

/// The message that the creator of a board holds from the start.
pub const SEED_MESSAGE: &'static str = "I created my CRUD contract";

/// What a listing shows for `id`: their message, or nothing if they hold none.
pub open spec fn listed(messages: Map<AccountId, Seq<char>>, id: AccountId) -> Option<
    MessageRecord,
> {
    if messages.contains_key(id) {
        Some(MessageRecord { sender: id, message: messages[id] })
    } else {
        None
    }
}

/// The messages of the members of `roster`, in roster order; a member without
/// a message is passed over.
pub open spec fn listing(messages: Map<AccountId, Seq<char>>, roster: Seq<AccountId>) -> Seq<
    MessageRecord,
> {
    roster.filter_map(|id: AccountId| listed(messages, id))
}

/// The holders that a list of kept messages names, in its order.
pub open spec fn holders(records: Seq<MessageRecord>) -> Seq<AccountId> {
    records.map_values(|m: MessageRecord| m.sender)
}

/// Whether a list of kept messages can be the messages of a board: it names
/// nobody twice, and every text in it is one that may be stored.
pub open spec fn restorable(records: Seq<MessageRecord>) -> bool {
    &&& holders(records).no_duplicates()
    &&& forall|i: int|
        0 <= i < records.len() ==> message_fault(#[trigger] records[i].message) is None
}

/// The store that a list of kept messages stands for: each holder named
/// maps to the text kept with them.
pub open spec fn stored(records: Seq<MessageRecord>) -> Map<AccountId, Seq<char>> {
    Map::new(
        |id: AccountId| holders(records).contains(id),
        |id: AccountId| records[holders(records).index_of(id)].message,
    )
}

/// Everything a message board remembers.
#[verifier::ext_equal]
pub struct ContractState {
    /// The message that each holder currently holds.
    pub messages: Map<AccountId, Seq<char>>,
    /// The holders, in the order in which they came to hold a message.
    pub senders: Seq<AccountId>,
    /// Every replacement of a message so far, oldest first.
    pub updates: Seq<UpdateRecord>,
    /// Every removal of a message so far, oldest first.
    pub deletions: Seq<DeleteRecord>,
    /// The identity that set the board up.
    pub owner: AccountId,
}

impl ContractState {
    /// Store and roster agree: the roster names each holder once, and names
    /// nobody else.
    pub open spec fn consistent(self) -> bool {
        &&& self.senders.no_duplicates()
        &&& forall|id: AccountId|
            self.messages.contains_key(id) <==> #[trigger] self.senders.contains(id)
    }

    /// Every message held is one that may be stored: none is empty or too
    /// short.
    pub open spec fn texts_acceptable(self) -> bool {
        forall|id: AccountId|
            self.messages.contains_key(id) ==> message_fault(#[trigger] self.messages[id]) is None
    }

    /// What holds of a board at all times: store and roster agree, and every
    /// message held is acceptable.
    pub open spec fn valid(self) -> bool {
        &&& self.consistent()
        &&& self.texts_acceptable()
    }

    /// The board as `creator` sets it up: they own it and hold the seed
    /// message, and nothing has happened yet.
    pub open spec fn initial(creator: AccountId) -> Self {
        ContractState {
            messages: Map::<AccountId, Seq<char>>::empty().insert(creator, SEED_MESSAGE@),
            senders: Seq::<AccountId>::empty().push(creator),
            updates: Seq::empty(),
            deletions: Seq::empty(),
            owner: creator,
        }
    }

    /// The board that was kept as these parts: the roster is the list's
    /// order.
    pub open spec fn restored(
        owner: AccountId,
        records: Seq<MessageRecord>,
        updates: Seq<UpdateRecord>,
        deletions: Seq<DeleteRecord>,
    ) -> Self {
        ContractState {
            messages: stored(records),
            senders: holders(records),
            updates,
            deletions,
            owner,
        }
    }

    /// Whether `caller` may create a message of `text`, and if not, why not.
    /// That they already hold one is found before any fault of the text.
    pub open spec fn create_check(self, caller: AccountId, text: Seq<char>) -> Result<
        (),
        CrudError,
    > {
        if self.messages.contains_key(caller) {
            Err(CrudError::YouAlreadyCreatedAMessage)
        } else {
            match message_fault(text) {
                Some(fault) => Err(fault),
                None => Ok(()),
            }
        }
    }

    /// The board after `caller` asked to create a message of `text`: changed
    /// only if they may.
    pub open spec fn create(self, caller: AccountId, text: Seq<char>) -> Self {
        if self.create_check(caller, text) is Ok {
            ContractState {
                messages: self.messages.insert(caller, text),
                senders: self.senders.push(caller),
                ..self
            }
        } else {
            self
        }
    }

    /// The message that `id` holds.
    pub open spec fn read(self, id: AccountId) -> Result<Seq<char>, CrudError> {
        if self.messages.contains_key(id) {
            Ok(self.messages[id])
        } else {
            Err(CrudError::SenderNotFound)
        }
    }

    /// All current messages in roster order.
    pub open spec fn read_all(self) -> Result<Seq<MessageRecord>, CrudError> {
        if self.senders.len() == 0 {
            Err(CrudError::NoMessageYet)
        } else {
            Ok(listing(self.messages, self.senders))
        }
    }

    /// Whether `caller` may replace their message by `text`, and if not, why
    /// not. That they hold none is found first, then a fault of the text,
    /// then that nothing would change.
    pub open spec fn update_check(self, caller: AccountId, text: Seq<char>) -> Result<
        (),
        CrudError,
    > {
        if !self.messages.contains_key(caller) {
            Err(CrudError::SenderNotFound)
        } else {
            match message_fault(text) {
                Some(fault) => Err(fault),
                None => if self.messages[caller] == text {
                    Err(CrudError::YourMessageIsTheSameAsBefore)
                } else {
                    Ok(())
                },
            }
        }
    }

    /// The board after `caller` asked at `now` to replace their message by
    /// `text`: changed only if they may.
    pub open spec fn update(self, caller: AccountId, text: Seq<char>, now: Timestamp) -> Self {
        if self.update_check(caller, text) is Ok {
            ContractState {
                messages: self.messages.insert(caller, text),
                updates: self.updates.push(
                    UpdateRecord {
                        sender: caller,
                        old_message: self.messages[caller],
                        new_message: text,
                        timestamp: now,
                    },
                ),
                ..self
            }
        } else {
            self
        }
    }

    /// Whether `caller` may remove their message.
    pub open spec fn delete_check(self, caller: AccountId) -> Result<(), CrudError> {
        if self.messages.contains_key(caller) {
            Ok(())
        } else {
            Err(CrudError::SenderNotFound)
        }
    }

    /// The board after `caller` asked at `now` to remove their message:
    /// changed only if they hold one.
    pub open spec fn delete(self, caller: AccountId, now: Timestamp) -> Self {
        if self.delete_check(caller) is Ok {
            ContractState {
                messages: self.messages.remove(caller),
                senders: without(self.senders, caller),
                deletions: self.deletions.push(
                    DeleteRecord { sender: caller, message: self.messages[caller], timestamp: now },
                ),
                ..self
            }
        } else {
            self
        }
    }

    /// The update ledger as `caller` gets to read it.
    pub open spec fn update_history(self, caller: AccountId) -> Result<
        Seq<UpdateRecord>,
        CrudError,
    > {
        match owner_gate(caller, self.owner) {
            Ok(_) => Ok(self.updates),
            Err(refusal) => Err(refusal),
        }
    }

    /// The delete ledger as `caller` gets to read it.
    pub open spec fn delete_history(self, caller: AccountId) -> Result<
        Seq<DeleteRecord>,
        CrudError,
    > {
        match owner_gate(caller, self.owner) {
            Ok(_) => Ok(self.deletions),
            Err(refusal) => Err(refusal),
        }
    }
}

} // verus!

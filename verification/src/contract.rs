use vstd::prelude::*;

use crate::access::require_owner;
use crate::account::{AccountId, Timestamp};
use crate::error::CrudError;
use crate::events::{MessageCreated, MessageDeleted, MessageUpdated};
use crate::laws::{
    lemma_create_valid, lemma_delete_valid, lemma_initial_valid, lemma_restored_valid,
    lemma_stored_push, lemma_update_valid,
};
use crate::message::{check_message, message_fault};
use crate::model::{holders, listed, listing, restorable, stored, ContractState, SEED_MESSAGE};
use crate::records::{
    delete_records, message_records, update_records, DeleteHistory, DeleteRecord, MessageRecord,
    Messages, UpdateHistory, UpdateRecord,
};
use crate::roster::strike;
use crate::store::RecordStore;

verus! {

/// A message board on which each identity holds at most one message, and
/// which keeps a ledger of every replacement and every removal.
///
/// Its view is the `ContractState` that it stands for.
pub struct CrudContract {
    messages: RecordStore,
    senders: Vec<AccountId>,
    updates: Vec<UpdateHistory>,
    deletions: Vec<DeleteHistory>,
    owner: AccountId,
}

impl View for CrudContract {
    type V = ContractState;

    closed spec fn view(&self) -> ContractState {
        ContractState {
            messages: self.messages@,
            senders: self.senders@,
            updates: update_records(self.updates@),
            deletions: delete_records(self.deletions@),
            owner: self.owner,
        }
    }
}

impl CrudContract {
    /// The board is sound: its store is well formed, and what it stands for
    /// is valid.
    pub closed spec fn inv(&self) -> bool {
        &&& self.messages.wf()
        &&& self@.valid()
    }

    /// What a sound board stands for is valid: store and roster agree, and
    /// every message held is acceptable.
    pub proof fn lemma_inv_valid(&self)
        requires
            self.inv(),
        ensures
            self@.valid(),
    {
    }

    /// Sets up a board for `creator`: they own it and hold the seed message.
    pub fn new(creator: AccountId) -> (board: Self)
        ensures
            board.inv(),
            board@ == ContractState::initial(creator),
    {
        let mut messages = RecordStore::new();
        messages.insert(creator, SEED_MESSAGE.to_owned());
        let mut senders: Vec<AccountId> = Vec::new();
        senders.push(creator);
        let board = CrudContract {
            messages,
            senders,
            updates: Vec::new(),
            deletions: Vec::new(),
            owner: creator,
        };
        proof {
            assert(board@.updates =~= Seq::empty());
            assert(board@.deletions =~= Seq::empty());
            assert(board@ =~= ContractState::initial(creator));
            lemma_initial_valid(creator);
        }
        board
    }

    /// Stores `message` as the message of `caller`, who joins the roster at
    /// its end.
    ///
    /// Refused, with the board left as it was, if `caller` already holds a
    /// message, or else if the text is empty or too short.
    pub fn create_message(&mut self, caller: AccountId, message: String) -> (r: Result<
        MessageCreated,
        CrudError,
    >)
        requires
            old(self).inv(),
        ensures
            final(self).inv(),
            final(self)@ == old(self)@.create(caller, message@),
            match r {
                Ok(event) => {
                    &&& old(self)@.create_check(caller, message@) is Ok
                    &&& event.sender == caller
                    &&& event.message@ == message@
                },
                Err(refusal) => old(self)@.create_check(caller, message@) == Err::<
                    (),
                    CrudError,
                >(refusal),
            },
    {
        if self.messages.contains(caller) {
            return Err(CrudError::YouAlreadyCreatedAMessage);
        }
        match check_message(message.as_str()) {
            Err(fault) => {
                return Err(fault);
            },
            Ok(_) => {},
        }
        self.messages.insert(caller, message.clone());
        self.senders.push(caller);
        proof {
            assert(self@ =~= old(self)@.create(caller, message@));
            lemma_create_valid(old(self)@, caller, message@);
        }
        Ok(MessageCreated { sender: caller, message })
    }

    /// Replaces the message of `caller` by `new_message` and enters the
    /// replacement, stamped `now`, in the update ledger.
    ///
    /// Refused, with the board left as it was, if `caller` holds no message,
    /// if the new text is empty or too short, or if it is the text they
    /// already hold.
    pub fn update_message(
        &mut self,
        caller: AccountId,
        new_message: String,
        now: Timestamp,
    ) -> (r: Result<MessageUpdated, CrudError>)
        requires
            old(self).inv(),
        ensures
            final(self).inv(),
            final(self)@ == old(self)@.update(caller, new_message@, now),
            match r {
                Ok(event) => {
                    &&& old(self)@.update_check(caller, new_message@) is Ok
                    &&& event.sender == caller
                    &&& event.new_message@ == new_message@
                },
                Err(refusal) => old(self)@.update_check(caller, new_message@) == Err::<
                    (),
                    CrudError,
                >(refusal),
            },
    {
        let current_message = match self.messages.get(caller) {
            Some(text) => text,
            None => {
                return Err(CrudError::SenderNotFound);
            },
        };
        match check_message(new_message.as_str()) {
            Err(fault) => {
                return Err(fault);
            },
            Ok(_) => {},
        }
        if current_message == new_message {
            return Err(CrudError::YourMessageIsTheSameAsBefore);
        }
        self.updates.push(
            UpdateHistory {
                sender: caller,
                old_message: current_message,
                new_message: new_message.clone(),
                timestamp: now,
            },
        );
        self.messages.insert(caller, new_message.clone());
        proof {
            assert(self@.updates =~= old(self)@.update(caller, new_message@, now).updates);
            assert(self@ =~= old(self)@.update(caller, new_message@, now));
            lemma_update_valid(old(self)@, caller, new_message@, now);
        }
        Ok(MessageUpdated { sender: caller, new_message })
    }

    /// The message that `sender` holds.
    ///
    /// Refused if they hold none.
    pub fn read_message_from(&self, sender: AccountId) -> (r: Result<String, CrudError>)
        requires
            self.inv(),
        ensures
            match r {
                Ok(text) => self@.read(sender) == Ok::<Seq<char>, CrudError>(text@),
                Err(refusal) => self@.read(sender) == Err::<Seq<char>, CrudError>(refusal),
            },
    {
        match self.messages.get(sender) {
            Some(text) => Ok(text),
            None => Err(CrudError::SenderNotFound),
        }
    }

    /// Every holder with their message, in roster order.
    ///
    /// Refused if the roster is empty.
    pub fn read_all_messages(&self) -> (r: Result<Vec<Messages>, CrudError>)
        requires
            self.inv(),
        ensures
            match r {
                Ok(list) => self@.read_all() == Ok::<Seq<MessageRecord>, CrudError>(
                    message_records(list@),
                ),
                Err(refusal) => self@.read_all() == Err::<Seq<MessageRecord>, CrudError>(refusal),
            },
    {
        if self.senders.is_empty() {
            return Err(CrudError::NoMessageYet);
        }
        let mut all_messages: Vec<Messages> = Vec::new();
        let mut i: usize = 0;
        proof {
            assert(self.senders@.take(0) =~= Seq::<AccountId>::empty());
            assert(message_records(all_messages@) =~= listing(
                self.messages@,
                self.senders@.take(0),
            ));
        }
        while i < self.senders.len()
            invariant
                self.messages.wf(),
                i <= self.senders@.len(),
                message_records(all_messages@) == listing(
                    self.messages@,
                    self.senders@.take(i as int),
                ),
            decreases self.senders@.len() - i,
        {
            let sender = self.senders[i];
            proof {
                lemma_listing_step(self.messages@, self.senders@, i as int);
            }
            let ghost before = all_messages@;
            match self.messages.get(sender) {
                Some(message) => {
                    all_messages.push(Messages { sender, message });
                    assert(message_records(all_messages@) =~= message_records(before).push(
                        MessageRecord { sender, message: message@ },
                    ));
                },
                None => {},
            }
            i += 1;
        }
        proof {
            assert(self.senders@.take(i as int) =~= self.senders@);
        }
        Ok(all_messages)
    }

    /// Removes the message of `caller`, strikes them from the roster and
    /// enters the removal, stamped `now`, in the delete ledger.
    ///
    /// Refused, with the board left as it was, if `caller` holds no message.
    pub fn delete_message(&mut self, caller: AccountId, now: Timestamp) -> (r: Result<
        MessageDeleted,
        CrudError,
    >)
        requires
            old(self).inv(),
        ensures
            final(self).inv(),
            final(self)@ == old(self)@.delete(caller, now),
            match r {
                Ok(event) => old(self)@.delete_check(caller) is Ok && event.sender == caller,
                Err(refusal) => old(self)@.delete_check(caller) == Err::<(), CrudError>(refusal),
            },
    {
        let message = match self.messages.get(caller) {
            Some(text) => text,
            None => {
                return Err(CrudError::SenderNotFound);
            },
        };
        self.deletions.push(DeleteHistory { sender: caller, message, timestamp: now });
        self.messages.remove(caller);
        strike(&mut self.senders, caller);
        proof {
            assert(self@.deletions =~= old(self)@.delete(caller, now).deletions);
            assert(self@ =~= old(self)@.delete(caller, now));
            lemma_delete_valid(old(self)@, caller, now);
        }
        Ok(MessageDeleted { sender: caller })
    }

    /// A copy of the whole update ledger, oldest entry first, for the owner.
    ///
    /// Refused if `caller` is not the owner.
    pub fn get_update_history(&self, caller: AccountId) -> (r: Result<
        Vec<UpdateHistory>,
        CrudError,
    >)
        ensures
            match r {
                Ok(log) => self@.update_history(caller) == Ok::<Seq<UpdateRecord>, CrudError>(
                    update_records(log@),
                ),
                Err(refusal) => self@.update_history(caller) == Err::<
                    Seq<UpdateRecord>,
                    CrudError,
                >(refusal),
            },
    {
        match require_owner(caller, self.owner) {
            Err(refusal) => Err(refusal),
            Ok(_) => {
                let log = self.updates.clone();
                assert(log@ =~= self.updates@);
                Ok(log)
            },
        }
    }

    /// A copy of the whole delete ledger, oldest entry first, for the owner.
    ///
    /// Refused if `caller` is not the owner.
    pub fn get_delete_history(&self, caller: AccountId) -> (r: Result<
        Vec<DeleteHistory>,
        CrudError,
    >)
        ensures
            match r {
                Ok(log) => self@.delete_history(caller) == Ok::<Seq<DeleteRecord>, CrudError>(
                    delete_records(log@),
                ),
                Err(refusal) => self@.delete_history(caller) == Err::<
                    Seq<DeleteRecord>,
                    CrudError,
                >(refusal),
            },
    {
        match require_owner(caller, self.owner) {
            Err(refusal) => Err(refusal),
            Ok(_) => {
                let log = self.deletions.clone();
                assert(log@ =~= self.deletions@);
                Ok(log)
            },
        }
    }

    /// The identity that set the board up.
    pub fn owner(&self) -> (owner: AccountId)
        ensures
            owner == self@.owner,
    {
        self.owner
    }

    /// Rebuilds a board from what was kept of it: its owner, its messages in
    /// roster order, and its two ledgers.
    ///
    /// There is no such board, and `None` comes back, if the messages name a
    /// holder twice or hold a text that may not be stored.
    pub fn restore(
        owner: AccountId,
        records: Vec<Messages>,
        updates: Vec<UpdateHistory>,
        deletions: Vec<DeleteHistory>,
    ) -> (r: Option<Self>)
        ensures
            r is Some <==> restorable(message_records(records@)),
            r matches Some(board) ==> {
                &&& board.inv()
                &&& board@ == ContractState::restored(
                    owner,
                    message_records(records@),
                    update_records(updates@),
                    delete_records(deletions@),
                )
            },
    {
        let ghost kept = message_records(records@);
        let mut messages = RecordStore::new();
        let mut senders: Vec<AccountId> = Vec::new();
        let mut i: usize = 0;
        proof {
            assert(kept.take(0) =~= Seq::<MessageRecord>::empty());
            assert(holders(kept.take(0)) =~= Seq::<AccountId>::empty());
            assert(stored(kept.take(0)) =~= Map::<AccountId, Seq<char>>::empty());
        }
        while i < records.len()
            invariant
                kept == message_records(records@),
                i <= records@.len(),
                messages.wf(),
                messages@ == stored(kept.take(i as int)),
                senders@ == holders(kept.take(i as int)),
                restorable(kept.take(i as int)),
            decreases records@.len() - i,
        {
            let sender = records[i].sender;
            let ghost entry = kept[i as int];
            proof {
                assert(kept.take(i + 1) =~= kept.take(i as int).push(entry));
            }
            if messages.contains(sender) {
                proof {
                    let j = holders(kept.take(i as int)).index_of(sender);
                    assert(holders(kept)[j] == holders(kept)[i as int]);
                }
                return None;
            }
            if check_message(records[i].message.as_str()).is_err() {
                assert(message_fault(kept[i as int].message) is Some);
                return None;
            }
            proof {
                lemma_stored_push(kept.take(i as int), entry);
            }
            messages.insert(sender, records[i].message.clone());
            senders.push(sender);
            i += 1;
        }
        let board = CrudContract { messages, senders, updates, deletions, owner };
        proof {
            assert(kept.take(i as int) =~= kept);
            lemma_restored_valid(owner, kept, board@.updates, board@.deletions);
            assert(board@ =~= ContractState::restored(
                owner,
                kept,
                update_records(updates@),
                delete_records(deletions@),
            ));
        }
        Some(board)
    }
}

/// Listing one more member of the roster adds their entry, if they have one,
/// at the end.
proof fn lemma_listing_step(messages: Map<AccountId, Seq<char>>, roster: Seq<AccountId>, i: int)
    requires
        0 <= i < roster.len(),
    ensures
        listing(messages, roster.take(i + 1)) == match listed(messages, roster[i]) {
            Some(entry) => listing(messages, roster.take(i)).push(entry),
            None => listing(messages, roster.take(i)),
        },
{
    roster.lemma_filter_map_take_succ(|id: AccountId| listed(messages, id), i);
    match listed(messages, roster[i]) {
        Some(entry) => {
            assert(listing(messages, roster.take(i)) + seq![entry] =~= listing(
                messages,
                roster.take(i),
            ).push(entry));
        },
        None => {
            assert(listing(messages, roster.take(i)) + Seq::<MessageRecord>::empty() =~= listing(
                messages,
                roster.take(i),
            ));
        },
    }
}

} // verus!

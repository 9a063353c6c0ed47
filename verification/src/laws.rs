use vstd::prelude::*;
use vstd::utf8::*;

use crate::account::{AccountId, Timestamp};
use crate::error::CrudError;
use crate::message::{lemma_byte_len_ascii, message_fault};
use crate::model::{
    holders, listed, listing, restorable, stored, ContractState, SEED_MESSAGE,
};
use crate::records::{DeleteRecord, MessageRecord, UpdateRecord};
use crate::roster::{lemma_without, occurrences};

verus! {

/// The seed message may be stored: it is neither empty nor too short.
pub proof fn lemma_seed_acceptable()
    ensures
        message_fault(SEED_MESSAGE@) is None,
{
    reveal_strlit("I created my CRUD contract");
    assert(is_ascii_chars(SEED_MESSAGE@));
    lemma_byte_len_ascii(SEED_MESSAGE@);
}

/// A board that has just been set up is valid.
pub proof fn lemma_initial_valid(creator: AccountId)
    ensures
        ContractState::initial(creator).valid(),
{
    let s = ContractState::initial(creator);
    lemma_seed_acceptable();
    assert(s.senders[0] == creator);
    assert forall|id: AccountId| s.messages.contains_key(id) <==> #[trigger] s.senders.contains(
        id,
    ) by {
        if s.senders.contains(id) {
            let j = s.senders.index_of(id);
            assert(s.senders[j] == creator);
        }
    }
}

/// Asking to create a message, granted or refused, leaves a valid board valid.
pub proof fn lemma_create_valid(s: ContractState, caller: AccountId, text: Seq<char>)
    requires
        s.valid(),
    ensures
        s.create(caller, text).valid(),
{
    let t = s.create(caller, text);
    if s.create_check(caller, text) is Ok {
        let n = s.senders.len() as int;
        assert(t.senders[n] == caller);
        assert(!s.senders.contains(caller));
        assert forall|id: AccountId| t.messages.contains_key(id) <==> #[trigger] t.senders.contains(
            id,
        ) by {
            if t.senders.contains(id) {
                let j = t.senders.index_of(id);
                if j < n {
                    assert(s.senders[j] == id);
                    assert(s.senders.contains(id));
                }
            }
            if t.messages.contains_key(id) && id != caller {
                assert(s.senders.contains(id));
                let j = s.senders.index_of(id);
                assert(t.senders[j] == id);
            }
        }
        assert forall|i: int, j: int|
            0 <= i < t.senders.len() && 0 <= j < t.senders.len() && i != j implies t.senders[i]
            != t.senders[j] by {
            if i < n && j < n {
                assert(s.senders[i] != s.senders[j]);
            } else if i < n {
                assert(s.senders[i] != caller);
            } else {
                assert(s.senders[j] != caller);
            }
        }
        assert forall|id: AccountId| t.messages.contains_key(id) implies message_fault(
            #[trigger] t.messages[id],
        ) is None by {
            if id != caller {
                assert(t.messages[id] == s.messages[id]);
            }
        }
    }
}

/// Asking to replace a message, granted or refused, leaves a valid board
/// valid.
pub proof fn lemma_update_valid(
    s: ContractState,
    caller: AccountId,
    text: Seq<char>,
    now: Timestamp,
)
    requires
        s.valid(),
    ensures
        s.update(caller, text, now).valid(),
{
    let t = s.update(caller, text, now);
    if s.update_check(caller, text) is Ok {
        assert forall|id: AccountId| t.messages.contains_key(id) <==> #[trigger] t.senders.contains(
            id,
        ) by {
            assert(s.messages.contains_key(id) <==> s.senders.contains(id));
        }
        assert forall|id: AccountId| t.messages.contains_key(id) implies message_fault(
            #[trigger] t.messages[id],
        ) is None by {
            if id != caller {
                assert(t.messages[id] == s.messages[id]);
            }
        }
    }
}

/// Asking to remove a message, granted or refused, leaves a valid board valid.
pub proof fn lemma_delete_valid(s: ContractState, caller: AccountId, now: Timestamp)
    requires
        s.valid(),
    ensures
        s.delete(caller, now).valid(),
{
    let t = s.delete(caller, now);
    if s.delete_check(caller) is Ok {
        lemma_without(s.senders, caller);
        assert forall|id: AccountId| t.messages.contains_key(id) <==> #[trigger] t.senders.contains(
            id,
        ) by {
            assert(s.messages.contains_key(id) <==> s.senders.contains(id));
        }
        assert forall|id: AccountId| t.messages.contains_key(id) implies message_fault(
            #[trigger] t.messages[id],
        ) is None by {
            assert(t.messages[id] == s.messages[id]);
        }
    }
}

/// Keeping one more message, of a holder not yet named, stores it beside the
/// others.
pub proof fn lemma_stored_push(records: Seq<MessageRecord>, entry: MessageRecord)
    requires
        holders(records).no_duplicates(),
        !holders(records).contains(entry.sender),
    ensures
        holders(records.push(entry)) == holders(records).push(entry.sender),
        holders(records.push(entry)).no_duplicates(),
        stored(records.push(entry)) == stored(records).insert(entry.sender, entry.message),
{
    let more = records.push(entry);
    let n = records.len() as int;
    assert(holders(more) =~= holders(records).push(entry.sender));
    assert forall|i: int, j: int|
        0 <= i < holders(more).len() && 0 <= j < holders(more).len() && i != j implies holders(
        more,
    )[i] != holders(more)[j] by {
        if i < n && j < n {
            assert(holders(records)[i] != holders(records)[j]);
        } else if i < n {
            assert(holders(records).contains(holders(records)[i]));
        } else {
            assert(holders(records).contains(holders(records)[j]));
        }
    }
    assert forall|id: AccountId| #[trigger]
        stored(more).contains_key(id) <==> stored(records).insert(
            entry.sender,
            entry.message,
        ).contains_key(id) by {
        if holders(more).contains(id) {
            let j = holders(more).index_of(id);
            if j < n {
                assert(holders(records)[j] == id);
            }
        }
        if holders(records).contains(id) {
            let j = holders(records).index_of(id);
            assert(holders(more)[j] == id);
        }
        if id == entry.sender {
            assert(holders(more)[n] == id);
        }
    }
    assert forall|id: AccountId| stored(more).contains_key(id) implies #[trigger] stored(more)[id]
        == stored(records).insert(entry.sender, entry.message)[id] by {
        let j = holders(more).index_of(id);
        if id == entry.sender {
            assert(holders(more)[n] == id);
            assert(j == n);
        } else {
            assert(j < n);
            assert(holders(records)[j] == id);
            let k = holders(records).index_of(id);
            assert(k == j);
        }
    }
    assert(stored(more) =~= stored(records).insert(entry.sender, entry.message));
}

/// A board restored from a list that can be a board's messages is valid.
pub proof fn lemma_restored_valid(
    owner: AccountId,
    records: Seq<MessageRecord>,
    updates: Seq<UpdateRecord>,
    deletions: Seq<DeleteRecord>,
)
    requires
        restorable(records),
    ensures
        ContractState::restored(owner, records, updates, deletions).valid(),
{
    let s = ContractState::restored(owner, records, updates, deletions);
    assert forall|id: AccountId| s.messages.contains_key(id) implies message_fault(
        #[trigger] s.messages[id],
    ) is None by {
        let j = holders(records).index_of(id);
        assert(message_fault(records[j].message) is None);
    }
}

/// On a board whose store and roster agree, an identity holds a message
/// exactly when the roster names it exactly once; and the roster names nobody
/// twice.
pub proof fn lemma_holders_named_once(s: ContractState, id: AccountId)
    requires
        s.consistent(),
    ensures
        s.messages.contains_key(id) <==> occurrences(s.senders, id) == 1,
        occurrences(s.senders, id) <= 1,
{
    s.senders.to_multiset_ensures();
    s.senders.lemma_multiset_has_no_duplicates();
    assert(s.messages.contains_key(id) <==> s.senders.contains(id));
    assert(s.senders.to_multiset().contains(id) <==> s.senders.to_multiset().count(id) > 0);
}

/// On a board whose store and roster agree, the listing passes nobody over:
/// it has one entry for each member of the roster, in roster order, with the
/// message they hold.
pub proof fn lemma_listing_complete(s: ContractState)
    requires
        s.consistent(),
    ensures
        listing(s.messages, s.senders).len() == s.senders.len(),
        forall|i: int|
            0 <= i < s.senders.len() ==> #[trigger] listing(s.messages, s.senders)[i]
                == (MessageRecord { sender: s.senders[i], message: s.messages[s.senders[i]] }),
{
    assert forall|i: int| 0 <= i < s.senders.len() implies s.messages.contains_key(
        #[trigger] s.senders[i],
    ) by {
        assert(s.senders.contains(s.senders[i]));
    }
    lemma_listing_of_holders(s.messages, s.senders);
}

/// The listing of a roster whose every member holds a message has one entry
/// for each member, in roster order.
proof fn lemma_listing_of_holders(messages: Map<AccountId, Seq<char>>, roster: Seq<AccountId>)
    requires
        forall|i: int| 0 <= i < roster.len() ==> messages.contains_key(#[trigger] roster[i]),
    ensures
        listing(messages, roster).len() == roster.len(),
        forall|i: int|
            0 <= i < roster.len() ==> #[trigger] listing(messages, roster)[i] == (MessageRecord {
                sender: roster[i],
                message: messages[roster[i]],
            }),
    decreases roster.len(),
{
    if roster.len() > 0 {
        let front = roster.drop_last();
        assert forall|i: int| 0 <= i < front.len() implies messages.contains_key(
            #[trigger] front[i],
        ) by {
            assert(front[i] == roster[i]);
        }
        lemma_listing_of_holders(messages, front);
        assert(messages.contains_key(roster[roster.len() - 1]));
        assert(listed(messages, roster.last()) is Some);
    }
}

/// A valid board comes back as it was when it is restored from its own
/// owner, listing and ledgers.
pub proof fn lemma_restore_round_trip(s: ContractState)
    requires
        s.valid(),
    ensures
        restorable(listing(s.messages, s.senders)),
        ContractState::restored(s.owner, listing(s.messages, s.senders), s.updates, s.deletions)
            == s,
{
    let kept = listing(s.messages, s.senders);
    lemma_listing_complete(s);
    assert(holders(kept) =~= s.senders);
    assert forall|i: int| 0 <= i < kept.len() implies message_fault(
        #[trigger] kept[i].message,
    ) is None by {
        assert(s.senders.contains(s.senders[i]));
        assert(message_fault(s.messages[s.senders[i]]) is None);
    }
    assert forall|id: AccountId| stored(kept).contains_key(id) implies #[trigger] stored(kept)[id]
        == s.messages[id] by {
        let j = holders(kept).index_of(id);
        assert(s.senders[j] == id);
    }
    assert(stored(kept) =~= s.messages);
}

/// No request, granted or refused, takes an entry out of a ledger, changes
/// one or moves one: each ledger only grows at its end. And none changes the
/// owner.
pub proof fn lemma_ledgers_only_grow(
    s: ContractState,
    caller: AccountId,
    text: Seq<char>,
    now: Timestamp,
)
    ensures
        s.updates.is_prefix_of(s.create(caller, text).updates),
        s.deletions.is_prefix_of(s.create(caller, text).deletions),
        s.create(caller, text).owner == s.owner,
        s.updates.is_prefix_of(s.update(caller, text, now).updates),
        s.deletions.is_prefix_of(s.update(caller, text, now).deletions),
        s.update(caller, text, now).owner == s.owner,
        s.updates.is_prefix_of(s.delete(caller, now).updates),
        s.deletions.is_prefix_of(s.delete(caller, now).deletions),
        s.delete(caller, now).owner == s.owner,
{
}

/// A message, once created, is what reading it gives.
pub proof fn lemma_create_then_read(s: ContractState, caller: AccountId, text: Seq<char>)
    requires
        s.create_check(caller, text) is Ok,
    ensures
        s.create(caller, text).read(caller) == Ok::<Seq<char>, CrudError>(text),
{
}

/// Who has created a message cannot create another: the second request is
/// refused as a repeat whatever its text, and changes nothing, so the first
/// text stays.
pub proof fn lemma_create_twice(
    s: ContractState,
    caller: AccountId,
    first: Seq<char>,
    second: Seq<char>,
)
    requires
        s.create_check(caller, first) is Ok,
    ensures
        s.create(caller, first).create_check(caller, second) == Err::<(), CrudError>(
            CrudError::YouAlreadyCreatedAMessage,
        ),
        s.create(caller, first).create(caller, second) == s.create(caller, first),
        s.create(caller, first).create(caller, second).read(caller) == Ok::<Seq<char>, CrudError>(
            first,
        ),
{
}

/// On a valid board, replacing a message by the very text that is stored is
/// refused as no change, and the board, its update ledger included, stays as
/// it was.
pub proof fn lemma_update_same_text(s: ContractState, caller: AccountId, now: Timestamp)
    requires
        s.valid(),
        s.messages.contains_key(caller),
    ensures
        s.update_check(caller, s.messages[caller]) == Err::<(), CrudError>(
            CrudError::YourMessageIsTheSameAsBefore,
        ),
        s.update(caller, s.messages[caller], now) == s,
        s.update(caller, s.messages[caller], now).updates == s.updates,
{
    assert(message_fault(s.messages[caller]) is None);
}

/// A message, once removed, cannot be read; and the removal adds exactly one
/// entry to the delete ledger, at its end, with the text that was removed.
pub proof fn lemma_delete_then_read(s: ContractState, caller: AccountId, now: Timestamp)
    requires
        s.delete_check(caller) is Ok,
    ensures
        s.delete(caller, now).read(caller) == Err::<Seq<char>, CrudError>(
            CrudError::SenderNotFound,
        ),
        s.delete(caller, now).deletions == s.deletions.push(
            DeleteRecord { sender: caller, message: s.messages[caller], timestamp: now },
        ),
        s.delete(caller, now).updates == s.updates,
{
}

/// The ledgers are for the owner alone: anybody else is refused whatever the
/// ledgers hold, and the owner gets each ledger whole and in order.
pub proof fn lemma_history_owner_only(s: ContractState, caller: AccountId)
    ensures
        caller != s.owner ==> s.update_history(caller) == Err::<Seq<UpdateRecord>, CrudError>(
            CrudError::OwnerOnly,
        ),
        caller != s.owner ==> s.delete_history(caller) == Err::<Seq<DeleteRecord>, CrudError>(
            CrudError::OwnerOnly,
        ),
        caller == s.owner ==> s.update_history(caller) == Ok::<Seq<UpdateRecord>, CrudError>(
            s.updates,
        ),
        caller == s.owner ==> s.delete_history(caller) == Ok::<Seq<DeleteRecord>, CrudError>(
            s.deletions,
        ),
{
}

} // verus!

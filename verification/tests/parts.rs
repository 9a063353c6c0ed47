use crud_contract::access::require_owner;
use crud_contract::message::{check_message, MIN_MESSAGE_LEN};
use crud_contract::model::SEED_MESSAGE;
use crud_contract::roster::strike;
use crud_contract::store::RecordStore;
use crud_contract::{
    AccountId, CrudContract, CrudError, DeleteHistory, Messages, Timestamp, UpdateHistory,
};

fn who(n: u8) -> AccountId {
    AccountId::from([n; 32])
}

#[test]
fn identities_are_equal_by_their_bytes() {
    let mut bytes = [7u8; 32];
    let a = AccountId::from(bytes);
    assert_eq!(a, AccountId { bytes });
    assert_eq!(a.bytes, bytes);
    bytes[31] = 8;
    assert_ne!(a, AccountId::from(bytes));
    bytes[31] = 7;
    bytes[0] = 6;
    assert_ne!(a, AccountId::from(bytes));
    bytes[0] = 7;
    assert_eq!(a, AccountId::from(bytes));
    let copy = a;
    assert_eq!(copy, a);
}

#[test]
fn the_gate_lets_only_the_owner_through() {
    assert_eq!(require_owner(who(1), who(1)), Ok(()));
    assert_eq!(require_owner(who(2), who(1)), Err(CrudError::OwnerOnly));
}

#[test]
fn texts_are_tested_for_emptiness_before_length() {
    assert_eq!(MIN_MESSAGE_LEN, 10);
    assert_eq!(check_message(""), Err(CrudError::YourMessageIsEmpty));
    assert_eq!(check_message("a"), Err(CrudError::YourMessageIsTooShort));
    assert_eq!(check_message("123456789"), Err(CrudError::YourMessageIsTooShort));
    assert_eq!(check_message("1234567890"), Ok(()));
    assert_eq!(check_message("12345678901"), Ok(()));
    assert_eq!(check_message("日本語"), Err(CrudError::YourMessageIsTooShort));
    assert_eq!(check_message("日本語!"), Ok(()));
    assert_eq!(check_message(SEED_MESSAGE), Ok(()));
    assert_eq!(SEED_MESSAGE, "I created my CRUD contract");
}

#[test]
fn striking_removes_the_member_and_keeps_the_order() {
    let mut roster = vec![who(1), who(2), who(3)];
    strike(&mut roster, who(2));
    assert_eq!(roster, vec![who(1), who(3)]);
    strike(&mut roster, who(2));
    assert_eq!(roster, vec![who(1), who(3)]);
    strike(&mut roster, who(1));
    strike(&mut roster, who(3));
    assert_eq!(roster, vec![]);
    strike(&mut roster, who(3));
    assert_eq!(roster, vec![]);
    let mut twice = vec![who(5), who(6), who(5)];
    strike(&mut twice, who(5));
    assert_eq!(twice, vec![who(6)]);
}

#[test]
fn the_store_keeps_one_text_for_each_holder() {
    let mut store = RecordStore::new();
    assert!(!store.contains(who(1)));
    assert_eq!(store.get(who(1)), None);
    store.insert(who(1), String::from("one"));
    store.insert(who(2), String::from("two"));
    assert!(store.contains(who(1)));
    assert_eq!(store.get(who(1)), Some(String::from("one")));
    assert_eq!(store.get(who(2)), Some(String::from("two")));
    store.insert(who(1), String::from("uno"));
    assert_eq!(store.get(who(1)), Some(String::from("uno")));
    assert_eq!(store.get(who(2)), Some(String::from("two")));
    store.remove(who(1));
    assert!(!store.contains(who(1)));
    assert_eq!(store.get(who(1)), None);
    assert_eq!(store.get(who(2)), Some(String::from("two")));
    store.remove(who(1));
    assert!(store.contains(who(2)));
    store.remove(who(2));
    assert!(!store.contains(who(2)));
}

#[test]
fn history_entries_copy_field_for_field() {
    let stamp: Timestamp = u64::MAX;
    let update = UpdateHistory {
        sender: who(4),
        old_message: String::from("before"),
        new_message: String::from("after"),
        timestamp: stamp,
    };
    assert_eq!(update.clone(), update);
    let delete = DeleteHistory { sender: who(4), message: String::from("gone"), timestamp: 0 };
    assert_eq!(delete.clone(), delete);
}

#[test]
fn a_kept_board_is_restored_as_it_was() {
    let mut board = CrudContract::new(who(0));
    board.create_message(who(1), String::from("message of one")).unwrap();
    board.update_message(who(1), String::from("one, replaced"), 11).unwrap();
    board.create_message(who(2), String::from("message of two")).unwrap();
    board.delete_message(who(0), 12).unwrap();

    let records = board.read_all_messages().unwrap();
    let updates = board.get_update_history(board.owner()).unwrap();
    let deletions = board.get_delete_history(board.owner()).unwrap();
    let mut again = CrudContract::restore(board.owner(), records, updates, deletions).unwrap();

    assert_eq!(again.owner(), who(0));
    assert_eq!(again.read_all_messages(), board.read_all_messages());
    assert_eq!(again.get_update_history(who(0)), board.get_update_history(who(0)));
    assert_eq!(again.get_delete_history(who(0)), board.get_delete_history(who(0)));
    assert_eq!(again.read_message_from(who(0)), Err(CrudError::SenderNotFound));
    assert_eq!(again.read_message_from(who(1)), Ok(String::from("one, replaced")));

    assert_eq!(
        again.create_message(who(2), String::from("two, a second time")),
        Err(CrudError::YouAlreadyCreatedAMessage)
    );
    again.create_message(who(0), String::from("zero is back")).unwrap();
    assert_eq!(
        again.read_all_messages(),
        Ok(vec![
            Messages { sender: who(1), message: String::from("one, replaced") },
            Messages { sender: who(2), message: String::from("message of two") },
            Messages { sender: who(0), message: String::from("zero is back") },
        ])
    );
}

#[test]
fn a_board_without_messages_is_restored_empty() {
    let board = CrudContract::restore(who(0), vec![], vec![], vec![]).unwrap();
    assert_eq!(board.read_all_messages(), Err(CrudError::NoMessageYet));
    assert_eq!(board.owner(), who(0));
}

#[test]
fn kept_messages_that_name_a_holder_twice_restore_nothing() {
    let records = vec![
        Messages { sender: who(1), message: String::from("message of one") },
        Messages { sender: who(2), message: String::from("message of two") },
        Messages { sender: who(1), message: String::from("one, a second time") },
    ];
    assert!(CrudContract::restore(who(0), records, vec![], vec![]).is_none());
}

#[test]
fn kept_messages_with_a_faulty_text_restore_nothing() {
    let short = vec![
        Messages { sender: who(1), message: String::from("message of one") },
        Messages { sender: who(2), message: String::from("too short") },
    ];
    assert!(CrudContract::restore(who(0), short, vec![], vec![]).is_none());
    let empty = vec![Messages { sender: who(1), message: String::new() }];
    assert!(CrudContract::restore(who(0), empty, vec![], vec![]).is_none());
}

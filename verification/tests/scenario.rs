use crud_contract::{
    AccountId, CrudContract, CrudError, DeleteHistory, MessageCreated, MessageDeleted,
    MessageUpdated, Messages, UpdateHistory,
};

#[test]
fn a_second_holder_comes_changes_their_mind_and_goes() {
    let c0 = AccountId::from([0xc0; 32]);
    let c1 = AccountId::from([0xc1; 32]);
    let seed = String::from("I created my CRUD contract");

    let mut board = CrudContract::new(c0);
    assert_eq!(board.read_message_from(c0), Ok(seed.clone()));
    assert_eq!(
        board.read_all_messages(),
        Ok(vec![Messages { sender: c0, message: seed.clone() }])
    );

    assert_eq!(
        board.create_message(c1, String::from("short")),
        Err(CrudError::YourMessageIsTooShort)
    );
    assert_eq!(board.read_message_from(c1), Err(CrudError::SenderNotFound));
    assert_eq!(
        board.read_all_messages(),
        Ok(vec![Messages { sender: c0, message: seed.clone() }])
    );

    assert_eq!(
        board.create_message(c1, String::from("a valid message")),
        Ok(MessageCreated { sender: c1, message: String::from("a valid message") })
    );
    assert_eq!(
        board.read_all_messages(),
        Ok(vec![
            Messages { sender: c0, message: seed.clone() },
            Messages { sender: c1, message: String::from("a valid message") },
        ])
    );

    assert_eq!(
        board.update_message(c1, String::from("a valid message"), 100),
        Err(CrudError::YourMessageIsTheSameAsBefore)
    );
    assert_eq!(board.get_update_history(c0), Ok(vec![]));

    assert_eq!(
        board.update_message(c1, String::from("a different valid message"), 101),
        Ok(MessageUpdated { sender: c1, new_message: String::from("a different valid message") })
    );
    assert_eq!(
        board.get_update_history(c0),
        Ok(vec![UpdateHistory {
            sender: c1,
            old_message: String::from("a valid message"),
            new_message: String::from("a different valid message"),
            timestamp: 101,
        }])
    );

    assert_eq!(board.delete_message(c1, 102), Ok(MessageDeleted { sender: c1 }));
    assert_eq!(
        board.get_delete_history(c0),
        Ok(vec![DeleteHistory {
            sender: c1,
            message: String::from("a different valid message"),
            timestamp: 102,
        }])
    );

    assert_eq!(
        board.read_all_messages(),
        Ok(vec![Messages { sender: c0, message: seed }])
    );
}

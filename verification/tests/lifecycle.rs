use budget::dates::Date;
use budget::domain::{
    Category, CreateTransaction, Error, MovementType, TransactionStatus, UpdateTransaction,
};
use budget::handler::Handler;
use budget::recurrence::RecurrenceRepository;
use budget::store::TransactionRepository;

fn fresh_handler() -> Handler {
    Handler::new(TransactionRepository::new(), RecurrenceRepository::new())
}

fn command(value: i64, installments: i16, due_date: Date) -> CreateTransaction {
    CreateTransaction {
        movement_type: MovementType::Expense,
        description: String::from("groceries"),
        value,
        due_date,
        category: Category::Food,
        account_id: 7,
        status: TransactionStatus::Pending,
        installments,
    }
}

fn empty_patch() -> UpdateTransaction {
    UpdateTransaction {
        movement_type: None,
        description: None,
        value: None,
        due_date: None,
        category: None,
        account_id: None,
    }
}

#[test]
fn create_single_installment_returns_pending_row() {
    let mut handler = fresh_handler();
    let cmd = command(2500, 1, Date { year: 2024, month: 5, day: 10 });
    let created = handler.create_transaction(cmd).unwrap();
    assert_eq!(created.value, 2500);
    assert_eq!(created.status, TransactionStatus::Pending);
    assert_eq!(created.due_date, Date { year: 2024, month: 5, day: 10 });
    assert_eq!(created.description, "groceries");
    assert_eq!(created.account_id, 7);
    assert!(created.updated_at.is_none());
    assert!(created.deleted_at.is_none());
    assert_eq!(created.installment_group, None);
    assert_eq!(created.installment_number, None);

    let listed = handler.list_transactions();
    assert_eq!(listed.len(), 1);
    assert_eq!(listed[0].transaction_id, created.transaction_id);
    assert_eq!(listed[0].value, 2500);
}

#[test]
fn get_transaction_by_id_round_trip() {
    let mut handler = fresh_handler();
    let created = handler
        .create_transaction(command(999, 1, Date { year: 2024, month: 1, day: 2 }))
        .unwrap();
    let got = handler.get_transaction_by_id(created.transaction_id).unwrap();
    assert_eq!(got.transaction_id, created.transaction_id);
    assert_eq!(got.value, 999);
    assert_eq!(got.description, "groceries");
}

#[test]
fn get_unknown_id_is_not_found() {
    let handler = fresh_handler();
    assert!(matches!(
        handler.get_transaction_by_id(42),
        Err(Error::TransactionNotFound(i)) if i == 42
    ));
}

#[test]
fn finish_transaction_is_one_way() {
    let mut handler = fresh_handler();
    let created = handler
        .create_transaction(command(100, 1, Date { year: 2024, month: 3, day: 1 }))
        .unwrap();
    let id = created.transaction_id;

    let finished = handler
        .finish_transaction(id, TransactionStatus::Completed)
        .unwrap();
    assert_eq!(finished.status, TransactionStatus::Completed);
    assert!(finished.updated_at.is_some());

    let again = handler.finish_transaction(id, TransactionStatus::Canceled);
    assert!(matches!(again, Err(Error::TransactionFinished(i)) if i == id));

    let still = handler.get_transaction_by_id(id).unwrap();
    assert_eq!(still.status, TransactionStatus::Completed);
}

#[test]
fn finish_to_canceled_is_terminal_too() {
    let mut handler = fresh_handler();
    let created = handler
        .create_transaction(command(100, 1, Date { year: 2024, month: 3, day: 1 }))
        .unwrap();
    let id = created.transaction_id;
    let finished = handler
        .finish_transaction(id, TransactionStatus::Canceled)
        .unwrap();
    assert_eq!(finished.status, TransactionStatus::Canceled);
    let again = handler.finish_transaction(id, TransactionStatus::Completed);
    assert!(matches!(again, Err(Error::TransactionFinished(i)) if i == id));
}

#[test]
fn finish_unknown_id_is_not_found() {
    let mut handler = fresh_handler();
    assert!(matches!(handler.finish_transaction(5, TransactionStatus::Completed), Err(Error::TransactionNotFound(i)) if i == 5));
}

#[test]
fn delete_finished_transaction_fails() {
    let mut handler = fresh_handler();
    let created = handler
        .create_transaction(command(100, 1, Date { year: 2024, month: 3, day: 1 }))
        .unwrap();
    let id = created.transaction_id;
    handler
        .finish_transaction(id, TransactionStatus::Completed)
        .unwrap();
    assert!(matches!(handler.delete_transaction_by_id(id), Err(Error::TransactionFinished(i)) if i == id));
}

#[test]
fn delete_twice_soft_deletes_then_not_found() {
    let mut handler = fresh_handler();
    let created = handler
        .create_transaction(command(100, 1, Date { year: 2024, month: 3, day: 1 }))
        .unwrap();
    let id = created.transaction_id;

    let prior = handler.delete_transaction_by_id(id).unwrap();
    assert_eq!(prior.transaction_id, id);
    assert!(prior.deleted_at.is_none());

    assert!(matches!(
        handler.get_transaction_by_id(id),
        Err(Error::TransactionNotFound(i)) if i == id
    ));
    assert!(matches!(handler.delete_transaction_by_id(id), Err(Error::TransactionNotFound(i)) if i == id));
    assert!(handler.list_transactions().is_empty());
}

#[test]
fn update_description_only_keeps_other_fields() {
    let mut handler = fresh_handler();
    let created = handler
        .create_transaction(command(1234, 1, Date { year: 2024, month: 6, day: 15 }))
        .unwrap();
    let id = created.transaction_id;

    let mut patch = empty_patch();
    patch.description = Some(String::from("rent"));
    let updated = handler.update_transaction_by_id(id, patch).unwrap();

    assert_eq!(updated.transaction_id, id);
    assert_eq!(updated.description, "rent");
    assert_eq!(updated.value, created.value);
    assert_eq!(updated.due_date, created.due_date);
    assert_eq!(updated.category, created.category);
    assert_eq!(updated.movement_type, created.movement_type);
    assert_eq!(updated.account_id, created.account_id);
    assert_eq!(updated.status, created.status);
    assert_eq!(updated.created_at, created.created_at);
    assert_eq!(updated.deleted_at, None);
    assert!(updated.updated_at.is_some());
}

#[test]
fn update_several_fields_at_once() {
    let mut handler = fresh_handler();
    let created = handler
        .create_transaction(command(1234, 1, Date { year: 2024, month: 6, day: 15 }))
        .unwrap();
    let id = created.transaction_id;

    let patch = UpdateTransaction {
        movement_type: Some(MovementType::Income),
        description: None,
        value: Some(4321),
        due_date: Some(Date { year: 2025, month: 1, day: 1 }),
        category: Some(Category::Salary),
        account_id: None,
    };
    let updated = handler.update_transaction_by_id(id, patch).unwrap();
    assert_eq!(updated.movement_type, MovementType::Income);
    assert_eq!(updated.value, 4321);
    assert_eq!(updated.due_date, Date { year: 2025, month: 1, day: 1 });
    assert_eq!(updated.category, Category::Salary);
    assert_eq!(updated.description, "groceries");
    assert_eq!(updated.account_id, 7);
}

#[test]
fn update_unknown_or_deleted_is_not_found() {
    let mut handler = fresh_handler();
    let mut patch = empty_patch();
    patch.description = Some(String::from("nothing"));
    assert!(matches!(
        handler.update_transaction_by_id(9, patch),
        Err(Error::TransactionNotFound(i)) if i == 9
    ));

    let created = handler
        .create_transaction(command(10, 1, Date { year: 2024, month: 2, day: 2 }))
        .unwrap();
    let id = created.transaction_id;
    handler.delete_transaction_by_id(id).unwrap();
    let mut patch2 = empty_patch();
    patch2.value = Some(11);
    assert!(matches!(handler.update_transaction_by_id(id, patch2), Err(Error::TransactionNotFound(i)) if i == id));
}

#[test]
fn create_transaction_at_rejects_duplicate_ids() {
    let mut handler = fresh_handler();
    let cmd = command(200, 2, Date { year: 2024, month: 1, day: 15 });
    let ids: Vec<u128> = vec![77, 77];
    let r = handler.create_transaction_at(cmd, &ids, 1000);
    assert!(matches!(r, Err(Error::DatabaseError)));
    assert!(handler.list_transactions().is_empty());
}

#[test]
fn create_transaction_at_rejects_taken_id() {
    let mut handler = fresh_handler();
    let first = handler.create_transaction_at(
        command(200, 1, Date { year: 2024, month: 1, day: 15 }),
        &vec![77],
        1000,
    );
    assert!(first.is_ok());
    let r = handler.create_transaction_at(
        command(300, 1, Date { year: 2024, month: 1, day: 16 }),
        &vec![77],
        1001,
    );
    assert!(matches!(r, Err(Error::DatabaseError)));
    assert_eq!(handler.list_transactions().len(), 1);
}

#[test]
fn is_finished_matches_status() {
    let mut handler = fresh_handler();
    let pending = handler
        .create_transaction(command(5, 1, Date { year: 2024, month: 1, day: 1 }))
        .unwrap();
    assert!(!pending.is_finished());
    let done = handler
        .finish_transaction(pending.transaction_id, TransactionStatus::Completed)
        .unwrap();
    assert!(done.is_finished());
}

#[test]
fn transaction_update_at_stamps_given_clock() {
    let mut t = budget::domain::Transaction {
        transaction_id: 1,
        movement_type: MovementType::Expense,
        description: String::from("before"),
        value: 10,
        due_date: Date { year: 2024, month: 4, day: 4 },
        category: Category::Home,
        account_id: 2,
        status: TransactionStatus::Pending,
        installment_group: None,
        installment_number: None,
        created_at: 50,
        updated_at: None,
        deleted_at: None,
    };
    let mut patch = empty_patch();
    patch.description = Some(String::from("after"));
    t.update_at(patch, 99);
    assert_eq!(t.description, "after");
    assert_eq!(t.updated_at, Some(99));
    assert_eq!(t.created_at, 50);
    assert_eq!(t.value, 10);

    let mut patch2 = empty_patch();
    patch2.value = Some(20);
    t.update(patch2);
    assert_eq!(t.value, 20);
    assert!(t.updated_at.is_some());
}

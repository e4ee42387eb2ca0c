use budget::dates::{add_months, days_in_month, Date};
use budget::domain::{
    Category, CreateTransaction, Error, Frequency, MonthReference, MovementType, TransactionStatus,
};
use budget::handler::Handler;
use budget::installments::installment_value;
use budget::recurrence::{CreateRecurrenceTransaction, RecurrenceRepository};
use budget::store::TransactionRepository;

fn fresh_handler() -> Handler {
    Handler::new(TransactionRepository::new(), RecurrenceRepository::new())
}

fn command(value: i64, installments: i16, due_date: Date) -> CreateTransaction {
    CreateTransaction {
        movement_type: MovementType::Expense,
        description: String::from("plan"),
        value,
        due_date,
        category: Category::Home,
        account_id: 3,
        status: TransactionStatus::Pending,
        installments,
    }
}

fn recurrence_command(reference: i32, amount: i64) -> CreateRecurrenceTransaction {
    CreateRecurrenceTransaction {
        account_id: 3,
        description: String::from("subscription"),
        amount,
        frequency: Frequency::Monthly,
        reference,
        category: Category::Subscriptions,
        start_date: Date { year: 2024, month: 1, day: 1 },
    }
}

#[test]
fn three_installments_split_and_clamp() {
    let mut handler = fresh_handler();
    let cmd = command(10000, 3, Date { year: 2024, month: 1, day: 31 });
    let first = handler.create_transaction(cmd).unwrap();
    assert_eq!(first.value, 3334);
    assert_eq!(first.due_date, Date { year: 2024, month: 1, day: 31 });

    let rows = handler.list_transactions();
    assert_eq!(rows.len(), 3);
    assert_eq!(rows[0].due_date, Date { year: 2024, month: 1, day: 31 });
    assert_eq!(rows[1].due_date, Date { year: 2024, month: 2, day: 29 });
    assert_eq!(rows[2].due_date, Date { year: 2024, month: 3, day: 31 });
    assert_eq!(rows[0].value, 3334);
    assert_eq!(rows[1].value, 3333);
    assert_eq!(rows[2].value, 3333);
    assert_eq!(rows.iter().map(|t| t.value).sum::<i64>(), 10000);
    for row in &rows {
        assert_eq!(row.status, TransactionStatus::Pending);
        assert_eq!(row.description, "plan");
        assert_eq!(row.category, Category::Home);
        assert_eq!(row.account_id, 3);
    }
    for (k, row) in rows.iter().enumerate() {
        assert_eq!(row.installment_group, Some(rows[0].transaction_id));
        assert_eq!(row.installment_number, Some(k as i16 + 1));
    }
    assert_ne!(rows[0].transaction_id, rows[1].transaction_id);
    assert_ne!(rows[1].transaction_id, rows[2].transaction_id);
    assert_ne!(rows[0].transaction_id, rows[2].transaction_id);
}

#[test]
fn installment_values_sum_exactly() {
    let total: i64 = 101;
    let n: i16 = 7;
    let mut sum: i64 = 0;
    for k in 0..n as usize {
        sum += installment_value(total, n, k);
    }
    assert_eq!(sum, total);
    assert_eq!(installment_value(10000, 3, 0), 3334);
    assert_eq!(installment_value(10000, 3, 1), 3333);
    assert_eq!(installment_value(10000, 3, 2), 3333);
    assert_eq!(installment_value(9, 3, 0), 3);
    assert_eq!(installment_value(0, 4, 0), 0);
}

#[test]
fn add_months_clamps_to_month_end() {
    let anchor = Date { year: 2024, month: 1, day: 31 };
    assert_eq!(add_months(anchor, 0), anchor);
    assert_eq!(add_months(anchor, 1), Date { year: 2024, month: 2, day: 29 });
    assert_eq!(add_months(anchor, 2), Date { year: 2024, month: 3, day: 31 });
    assert_eq!(add_months(anchor, 3), Date { year: 2024, month: 4, day: 30 });
    assert_eq!(add_months(anchor, 12), Date { year: 2025, month: 1, day: 31 });
    let plain = Date { year: 2023, month: 1, day: 31 };
    assert_eq!(add_months(plain, 1), Date { year: 2023, month: 2, day: 28 });
    assert_eq!(
        add_months(Date { year: 2023, month: 11, day: 15 }, 2),
        Date { year: 2024, month: 1, day: 15 }
    );
}

#[test]
fn days_in_month_handles_leap_rules() {
    assert_eq!(days_in_month(2024, 2), 29);
    assert_eq!(days_in_month(2023, 2), 28);
    assert_eq!(days_in_month(1900, 2), 28);
    assert_eq!(days_in_month(2000, 2), 29);
    assert_eq!(days_in_month(2024, 4), 30);
    assert_eq!(days_in_month(2024, 12), 31);
}

#[test]
fn period_filter_shows_only_matching_visible_rows() {
    let mut handler = fresh_handler();
    let march_a = handler
        .create_transaction(command(10, 1, Date { year: 2024, month: 3, day: 5 }))
        .unwrap();
    let march_b = handler
        .create_transaction(command(20, 1, Date { year: 2024, month: 3, day: 25 }))
        .unwrap();
    handler
        .create_transaction(command(30, 1, Date { year: 2024, month: 2, day: 5 }))
        .unwrap();
    handler
        .create_transaction(command(40, 1, Date { year: 2023, month: 3, day: 5 }))
        .unwrap();
    handler.delete_transaction_by_id(march_b.transaction_id).unwrap();

    let filtered = handler.list_transactions_by_period(MonthReference::March, 2024);
    assert_eq!(filtered.len(), 1);
    assert_eq!(filtered[0].transaction_id, march_a.transaction_id);
    assert_eq!(filtered[0].due_date, Date { year: 2024, month: 3, day: 5 });
}

#[test]
fn expand_recurrence_twice_generates_once() {
    let mut handler = fresh_handler();
    let rec = handler
        .create_recurrence_transaction(recurrence_command(15, 5000))
        .unwrap();
    assert!(rec.is_active);

    let first = handler
        .expand_recurrence(rec.recurrence_transaction_id, MonthReference::March, 2024)
        .unwrap();
    let generated = first.expect("first expansion should create an entry");
    assert_eq!(generated.due_date, Date { year: 2024, month: 3, day: 15 });
    assert_eq!(generated.value, 5000);
    assert_eq!(generated.status, TransactionStatus::Pending);
    assert_eq!(generated.description, "subscription");

    let second = handler
        .expand_recurrence(rec.recurrence_transaction_id, MonthReference::March, 2024)
        .unwrap();
    assert!(second.is_none());

    assert_eq!(handler.list_transactions().len(), 1);
    let links = handler.list_generated_transactions();
    assert_eq!(links.len(), 1);
    assert_eq!(
        links[0].recurrence_transaction_id,
        rec.recurrence_transaction_id
    );
    assert_eq!(links[0].transaction_id, generated.transaction_id);
}

#[test]
fn expand_recurrence_different_periods_generate_separately() {
    let mut handler = fresh_handler();
    let rec = handler
        .create_recurrence_transaction(recurrence_command(1, 700))
        .unwrap();
    let rid = rec.recurrence_transaction_id;
    let march = handler
        .expand_recurrence(rid, MonthReference::March, 2024)
        .unwrap();
    assert!(march.is_some());
    let april = handler
        .expand_recurrence(rid, MonthReference::April, 2024)
        .unwrap();
    assert!(april.is_some());
    assert_eq!(handler.list_transactions().len(), 2);
    assert_eq!(handler.list_generated_transactions().len(), 2);
}

#[test]
fn expand_recurrence_clamps_reference_day() {
    let mut handler = fresh_handler();
    let rec = handler
        .create_recurrence_transaction(recurrence_command(31, 100))
        .unwrap();
    let generated = handler
        .expand_recurrence(rec.recurrence_transaction_id, MonthReference::February, 2024)
        .unwrap()
        .expect("expansion should create an entry");
    assert_eq!(generated.due_date, Date { year: 2024, month: 2, day: 29 });
}

#[test]
fn expand_unknown_recurrence_is_not_found() {
    let mut handler = fresh_handler();
    assert!(matches!(
        handler.expand_recurrence(123, MonthReference::May, 2024),
        Err(Error::TransactionNotFound(i)) if i == 123
    ));
}

#[test]
fn expand_recurrence_at_rejects_taken_transaction_id() {
    let mut handler = fresh_handler();
    let existing = handler
        .create_transaction_at(
            command(10, 1, Date { year: 2024, month: 1, day: 1 }),
            &vec![55],
            100,
        )
        .unwrap();
    assert_eq!(existing.transaction_id, 55);
    let rec = handler
        .create_recurrence_transaction(recurrence_command(10, 100))
        .unwrap();
    let r = handler.expand_recurrence_at(
        rec.recurrence_transaction_id,
        MonthReference::June,
        2024,
        55,
        200,
    );
    assert!(matches!(r, Err(Error::DatabaseError)));
}

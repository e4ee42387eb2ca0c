use vstd::prelude::*;

use crate::clock;
use crate::dates::{valid_date, Date};

verus! {

/// Whether a movement adds to or draws from the account.
#[derive(Debug, Clone, Copy, PartialEq, Eq, Structural)]
pub enum MovementType {
    Income,
    Expense,
}

/// Lifecycle state of a transaction. `Pending` is the initial state;
/// `Canceled` and `Completed` are terminal.
#[derive(Debug, Clone, Copy, PartialEq, Eq, Structural)]
pub enum TransactionStatus {
    Pending,
    Canceled,
    Completed,
}

/// Closed enumeration of spending categories.
#[derive(Debug, Clone, Copy, PartialEq, Eq, Structural)]
pub enum Category {
    Food,
    Home,
    Education,
    Entertainment,
    Transport,
    Healthy,
    Salary,
    Utilities,
    Insurance,
    Savings,
    DebtPayments,
    ChildCare,
    Gifts,
    Subscriptions,
    Travel,
    Clothing,
    Maintenance,
}

/// Calendar month used by period filters.
#[derive(Debug, Clone, Copy, PartialEq, Eq, Structural)]
pub enum MonthReference {
    January,
    February,
    March,
    April,
    May,
    June,
    July,
    August,
    September,
    October,
    November,
    December,
}

/// How often a recurrence template spawns a new ledger entry.
#[derive(Debug, Clone, Copy, PartialEq, Eq, Structural)]
pub enum Frequency {
    Weekly,
    Monthly,
}

pub open spec fn spec_month_number(m: MonthReference) -> int {
    match m {
        MonthReference::January => 1,
        MonthReference::February => 2,
        MonthReference::March => 3,
        MonthReference::April => 4,
        MonthReference::May => 5,
        MonthReference::June => 6,
        MonthReference::July => 7,
        MonthReference::August => 8,
        MonthReference::September => 9,
        MonthReference::October => 10,
        MonthReference::November => 11,
        MonthReference::December => 12,
    }
}

pub fn month_number(m: MonthReference) -> (r: u8)
    ensures
        r == spec_month_number(m),
        1 <= r <= 12,
{
    match m {
        MonthReference::January => 1,
        MonthReference::February => 2,
        MonthReference::March => 3,
        MonthReference::April => 4,
        MonthReference::May => 5,
        MonthReference::June => 6,
        MonthReference::July => 7,
        MonthReference::August => 8,
        MonthReference::September => 9,
        MonthReference::October => 10,
        MonthReference::November => 11,
        MonthReference::December => 12,
    }
}

/// Errors surfaced by the orchestrator. The storage fault carries no cause:
/// storage internals are not leaked to callers.
#[derive(Debug, Clone, Copy, PartialEq, Eq, Structural)]
pub enum Error {
    DatabaseError,
    TransactionNotFound(u128),
    AccountNotFound(u128),
    AccountAlreadyDeleted(u128),
    TransactionFinished(u128),
    InstallmentNotFound(u128),
}

/// A ledger entry. Identity is assigned once at creation and never changes.
/// `value` is an exact decimal held as a signed count of cents. Timestamps
/// are milliseconds since the Unix epoch; `deleted_at` is the soft-delete
/// marker, set at most once. Rows born of a split payment plan carry a
/// shared group identity and a one-based sequence number, so the
/// installments of one creation command can be queried as a set; rows
/// created singly carry neither.
#[derive(Debug, Clone)]
pub struct Transaction {
    pub transaction_id: u128,
    pub movement_type: MovementType,
    pub description: String,
    pub value: i64,
    pub due_date: Date,
    pub category: Category,
    pub account_id: u128,
    pub status: TransactionStatus,
    pub installment_group: Option<u128>,
    pub installment_number: Option<i16>,
    pub created_at: i64,
    pub updated_at: Option<i64>,
    pub deleted_at: Option<i64>,
}

/// A creation command, validated at the caller layer before it reaches the
/// orchestrator.
#[derive(Debug, Clone)]
pub struct CreateTransaction {
    pub movement_type: MovementType,
    pub description: String,
    pub value: i64,
    pub due_date: Date,
    pub category: Category,
    pub account_id: u128,
    pub status: TransactionStatus,
    pub installments: i16,
}

impl CreateTransaction {
    /// A well-shaped command: at least one installment, a non-negative
    /// value, a real due date within the supported planning horizon, and
    /// the initial lifecycle state.
    pub open spec fn wf(&self) -> bool {
        &&& 1 <= self.installments
        &&& 0 <= self.value
        &&& valid_date(self.due_date)
        &&& self.due_date.year <= 9999
        &&& self.status == TransactionStatus::Pending
    }
}

/// A partial update: a field left unset is left unchanged.
#[derive(Debug, Clone)]
pub struct UpdateTransaction {
    pub movement_type: Option<MovementType>,
    pub description: Option<String>,
    pub value: Option<i64>,
    pub due_date: Option<Date>,
    pub category: Option<Category>,
    pub account_id: Option<u128>,
}

/// The patch applied to a transaction: each field present in the patch
/// replaces the old one, the rest are kept, and the update stamp is set.
/// Identity, status, the installment markers, and the audit fields
/// `created_at` and `deleted_at` are never touched by a patch.
pub open spec fn spec_apply_update(t: Transaction, data: UpdateTransaction, now: i64) -> Transaction {
    Transaction {
        movement_type: match data.movement_type {
            Some(v) => v,
            None => t.movement_type,
        },
        description: match data.description {
            Some(v) => v,
            None => t.description,
        },
        value: match data.value {
            Some(v) => v,
            None => t.value,
        },
        due_date: match data.due_date {
            Some(v) => v,
            None => t.due_date,
        },
        category: match data.category {
            Some(v) => v,
            None => t.category,
        },
        account_id: match data.account_id {
            Some(v) => v,
            None => t.account_id,
        },
        updated_at: Some(now),
        ..t
    }
}

impl Transaction {
    /// A finished transaction: its status is terminal.
    pub open spec fn spec_is_finished(&self) -> bool {
        self.status == TransactionStatus::Completed || self.status == TransactionStatus::Canceled
    }

    /// A transaction is finished when its status is Completed or Canceled.
    pub fn is_finished(&self) -> (r: bool)
        ensures
            r == self.spec_is_finished(),
    {
        match self.status {
            TransactionStatus::Completed | TransactionStatus::Canceled => true,
            _ => false,
        }
    }

    /// An exact copy of the entry.
    pub fn duplicate(&self) -> (r: Self)
        ensures
            r == *self,
    {
        Transaction {
            transaction_id: self.transaction_id,
            movement_type: self.movement_type,
            description: self.description.clone(),
            value: self.value,
            due_date: self.due_date,
            category: self.category,
            account_id: self.account_id,
            status: self.status,
            installment_group: self.installment_group,
            installment_number: self.installment_number,
            created_at: self.created_at,
            updated_at: self.updated_at,
            deleted_at: self.deleted_at,
        }
    }

    /// Applies the patch and stamps the update time with the given clock
    /// reading.
    pub fn update_at(&mut self, data: UpdateTransaction, now: i64)
        ensures
            *final(self) == spec_apply_update(*old(self), data, now),
    {
        let UpdateTransaction { movement_type, description, value, due_date, category, account_id } =
            data;
        if let Some(v) = movement_type {
            self.movement_type = v;
        }
        if let Some(v) = description {
            self.description = v;
        }
        if let Some(v) = value {
            self.value = v;
        }
        if let Some(v) = due_date {
            self.due_date = v;
        }
        if let Some(v) = category {
            self.category = v;
        }
        if let Some(v) = account_id {
            self.account_id = v;
        }
        self.updated_at = Some(now);
    }

    /// Applies the patch and stamps the update time from the system clock.
    pub fn update(&mut self, data: UpdateTransaction)
        ensures
            exists|now: i64| *final(self) == spec_apply_update(*old(self), data, now),
    {
        let ghost data0 = data;
        let now = clock::now_millis();
        self.update_at(data, now);
        proof {
            assert(*self == spec_apply_update(*old(self), data0, now));
        }
    }
}

} // verus!

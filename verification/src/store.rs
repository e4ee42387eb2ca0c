use vstd::prelude::*;

use crate::dates::Date;
use crate::domain::{spec_month_number, MonthReference, Transaction, TransactionStatus};

verus! {

/// A row that has not been soft-deleted: the only rows the read API returns.
pub open spec fn visible(t: Transaction) -> bool {
    t.deleted_at is None
}

/// Every row carries its own identity: no two rows share an id, whatever
/// their deletion state.
pub open spec fn distinct_ids(rows: Seq<Transaction>) -> bool {
    forall|i: int, j: int|
        0 <= i < j < rows.len() ==> rows[i].transaction_id != rows[j].transaction_id
}

pub open spec fn row_with_id(rows: Seq<Transaction>, id: u128, i: int) -> bool {
    0 <= i < rows.len() && rows[i].transaction_id == id
}

/// Some row, deleted or not, carries this id.
pub open spec fn has_row(rows: Seq<Transaction>, id: u128) -> bool {
    exists|i: int| row_with_id(rows, id, i)
}

/// The position of the row with this id; meaningful when the ids are
/// distinct and the row exists.
pub open spec fn row_index(rows: Seq<Transaction>, id: u128) -> int {
    choose|i: int| row_with_id(rows, id, i)
}

/// A row with this id exists and has not been soft-deleted.
pub open spec fn has_visible(rows: Seq<Transaction>, id: u128) -> bool {
    has_row(rows, id) && visible(rows[row_index(rows, id)])
}

/// The rows that the read API shows, in insertion order.
pub open spec fn visible_rows(rows: Seq<Transaction>) -> Seq<Transaction>
    decreases rows.len(),
{
    if rows.len() == 0 {
        Seq::empty()
    } else {
        let rest = visible_rows(rows.drop_last());
        if visible(rows.last()) {
            rest.push(rows.last())
        } else {
            rest
        }
    }
}

/// The due date falls in the given calendar month and year.
pub open spec fn in_period(d: Date, month: MonthReference, year: i32) -> bool {
    d.month == spec_month_number(month) && d.year == year
}

/// The rows that the period filter shows: not soft-deleted, due in the
/// period, in insertion order.
pub open spec fn period_rows(rows: Seq<Transaction>, month: MonthReference, year: i32) -> Seq<
    Transaction,
>
    decreases rows.len(),
{
    if rows.len() == 0 {
        Seq::empty()
    } else {
        let rest = period_rows(rows.drop_last(), month, year);
        if visible(rows.last()) && in_period(rows.last().due_date, month, year) {
            rest.push(rows.last())
        } else {
            rest
        }
    }
}

/// The row as soft-deletion leaves it: both bookkeeping stamps set, all
/// other fields kept.
pub open spec fn soft_deleted_row(t: Transaction, now: i64) -> Transaction {
    Transaction { updated_at: Some(now), deleted_at: Some(now), ..t }
}

/// The row as a status transition leaves it: new status, update stamp set,
/// all other fields kept.
pub open spec fn status_row(t: Transaction, status: TransactionStatus, now: i64) -> Transaction {
    Transaction { status, updated_at: Some(now), ..t }
}

/// The row as a full-row update leaves it: the caller-editable fields and
/// the update stamp are taken from the incoming entity; identity, status
/// and the audit fields `created_at` and `deleted_at` are kept.
pub open spec fn merged_row(existing: Transaction, t: Transaction) -> Transaction {
    Transaction {
        movement_type: t.movement_type,
        description: t.description,
        value: t.value,
        due_date: t.due_date,
        category: t.category,
        account_id: t.account_id,
        updated_at: t.updated_at,
        ..existing
    }
}

/// With distinct ids, any position holding the id is the position of the id.
pub proof fn lemma_row_index_unique(rows: Seq<Transaction>, id: u128, i: int)
    requires
        distinct_ids(rows),
        row_with_id(rows, id, i),
    ensures
        row_index(rows, id) == i,
{
    let j = row_index(rows, id);
    assert(row_with_id(rows, id, j));
}

/// Appending a row with a fresh id keeps the ids distinct.
pub proof fn lemma_push_preserves_distinct(rows: Seq<Transaction>, t: Transaction)
    requires
        distinct_ids(rows),
        !has_row(rows, t.transaction_id),
    ensures
        distinct_ids(rows.push(t)),
{
    assert forall|i: int, j: int| 0 <= i < j < rows.len() + 1 implies rows.push(t)[i].transaction_id
        != rows.push(t)[j].transaction_id by {
        if j == rows.len() {
            assert(!row_with_id(rows, t.transaction_id, i));
        }
    }
}

/// Replacing a row by one with the same id keeps the ids distinct.
pub proof fn lemma_update_preserves_distinct(rows: Seq<Transaction>, i: int, t: Transaction)
    requires
        distinct_ids(rows),
        0 <= i < rows.len(),
        rows[i].transaction_id == t.transaction_id,
    ensures
        distinct_ids(rows.update(i, t)),
{
}

/// Unfolds the visible-row filter over an appended row.
pub proof fn lemma_visible_rows_push(rows: Seq<Transaction>, t: Transaction)
    ensures
        visible_rows(rows.push(t)) == if visible(t) {
            visible_rows(rows).push(t)
        } else {
            visible_rows(rows)
        },
{
    assert(rows.push(t).drop_last() =~= rows);
    assert(rows.push(t).last() == t);
}

/// Unfolds the period filter over an appended row.
pub proof fn lemma_period_rows_push(
    rows: Seq<Transaction>,
    t: Transaction,
    month: MonthReference,
    year: i32,
)
    ensures
        period_rows(rows.push(t), month, year) == if visible(t) && in_period(
            t.due_date,
            month,
            year,
        ) {
            period_rows(rows, month, year).push(t)
        } else {
            period_rows(rows, month, year)
        },
{
    assert(rows.push(t).drop_last() =~= rows);
    assert(rows.push(t).last() == t);
}

/// The in-memory transaction repository: the verified implementation of the
/// persistence contract. Reads never show soft-deleted rows; soft delete is
/// the only deletion mechanism; absence is reported as `None`, never as a
/// distinct error.
pub struct TransactionRepository {
    transactions: Vec<Transaction>,
}

impl View for TransactionRepository {
    type V = Seq<Transaction>;

    closed spec fn view(&self) -> Seq<Transaction> {
        self.transactions@
    }
}

impl TransactionRepository {
    /// An empty repository.
    pub fn new() -> (r: Self)
        ensures
            r@ == Seq::<Transaction>::empty(),
    {
        TransactionRepository { transactions: Vec::new() }
    }

    /// The position of the first row carrying the id, deleted or not.
    fn position_of(&self, transaction_id: u128) -> (r: Option<usize>)
        ensures
            match r {
                Some(i) => row_with_id(self@, transaction_id, i as int),
                None => !has_row(self@, transaction_id),
            },
    {
        let mut i: usize = 0;
        while i < self.transactions.len()
            invariant
                i <= self.transactions@.len(),
                forall|j: int| 0 <= j < i ==> self.transactions@[j].transaction_id != transaction_id,
            decreases self.transactions@.len() - i,
        {
            if self.transactions[i].transaction_id == transaction_id {
                return Some(i);
            }
            i += 1;
        }
        proof {
            assert forall|j: int| !row_with_id(self@, transaction_id, j) by {}
        }
        None
    }

    /// Whether any row, deleted or not, carries the id.
    pub fn contains_id(&self, transaction_id: u128) -> (r: bool)
        ensures
            r == has_row(self@, transaction_id),
    {
        match self.position_of(transaction_id) {
            Some(_) => true,
            None => false,
        }
    }

    /// The row carrying the id, deleted or not.
    pub(crate) fn find_row(&self, transaction_id: u128) -> (r: Option<Transaction>)
        requires
            distinct_ids(self@),
        ensures
            match r {
                Some(t) => has_row(self@, transaction_id) && t == self@[row_index(
                    self@,
                    transaction_id,
                )],
                None => !has_row(self@, transaction_id),
            },
    {
        match self.position_of(transaction_id) {
            Some(i) => {
                proof {
                    lemma_row_index_unique(self@, transaction_id, i as int);
                }
                Some(self.transactions[i].duplicate())
            },
            None => None,
        }
    }

    /// Inserts the row when its id is fresh; reports a duplicate id as
    /// `false` and leaves the rows unchanged, as the store's key constraint
    /// would.
    pub fn create_transaction(&mut self, t: Transaction) -> (r: bool)
        requires
            distinct_ids(old(self)@),
        ensures
            distinct_ids(final(self)@),
            r == !has_row(old(self)@, t.transaction_id),
            r ==> final(self)@ == old(self)@.push(t),
            !r ==> final(self)@ == old(self)@,
    {
        if self.contains_id(t.transaction_id) {
            false
        } else {
            proof {
                lemma_push_preserves_distinct(self@, t);
            }
            self.transactions.push(t);
            true
        }
    }

    /// All rows that are not soft-deleted, in insertion order.
    pub fn list_transactions(&self) -> (r: Vec<Transaction>)
        ensures
            r@ == visible_rows(self@),
    {
        let mut r: Vec<Transaction> = Vec::new();
        let mut i: usize = 0;
        while i < self.transactions.len()
            invariant
                i <= self.transactions@.len(),
                r@ == visible_rows(self@.take(i as int)),
            decreases self.transactions@.len() - i,
        {
            proof {
                assert(self@.take(i + 1) =~= self@.take(i as int).push(self@[i as int]));
                lemma_visible_rows_push(self@.take(i as int), self@[i as int]);
            }
            let t = &self.transactions[i];
            if t.deleted_at.is_none() {
                r.push(t.duplicate());
            }
            i += 1;
        }
        proof {
            assert(self@.take(self.transactions@.len() as int) =~= self@);
        }
        r
    }

    /// All rows that are not soft-deleted and fall due in the period, in
    /// insertion order.
    pub fn list_transactions_by_period(&self, month: MonthReference, year: i32) -> (r: Vec<
        Transaction,
    >)
        ensures
            r@ == period_rows(self@, month, year),
    {
        let m = crate::domain::month_number(month);
        let mut r: Vec<Transaction> = Vec::new();
        let mut i: usize = 0;
        while i < self.transactions.len()
            invariant
                i <= self.transactions@.len(),
                m == spec_month_number(month),
                r@ == period_rows(self@.take(i as int), month, year),
            decreases self.transactions@.len() - i,
        {
            proof {
                assert(self@.take(i + 1) =~= self@.take(i as int).push(self@[i as int]));
                lemma_period_rows_push(self@.take(i as int), self@[i as int], month, year);
            }
            let t = &self.transactions[i];
            if t.deleted_at.is_none() && t.due_date.month == m && t.due_date.year == year {
                r.push(t.duplicate());
            }
            i += 1;
        }
        proof {
            assert(self@.take(self.transactions@.len() as int) =~= self@);
        }
        r
    }

    /// The row carrying the id, absence — missing or soft-deleted — as
    /// `None`.
    pub fn get_transaction_by_id(&self, transaction_id: u128) -> (r: Option<Transaction>)
        requires
            distinct_ids(self@),
        ensures
            has_visible(self@, transaction_id) ==> r == Some(
                self@[row_index(self@, transaction_id)],
            ),
            !has_visible(self@, transaction_id) ==> r is None,
    {
        match self.position_of(transaction_id) {
            Some(i) => {
                proof {
                    lemma_row_index_unique(self@, transaction_id, i as int);
                }
                let t = &self.transactions[i];
                if t.deleted_at.is_none() {
                    Some(t.duplicate())
                } else {
                    None
                }
            },
            None => None,
        }
    }

    /// Stamps the soft-delete marker on the not-yet-deleted row carrying the
    /// id and hands back the prior row; zero rows affected is `None`.
    pub fn delete_transaction_by_id(&mut self, transaction_id: u128, now: i64) -> (r: Option<
        Transaction,
    >)
        requires
            distinct_ids(old(self)@),
        ensures
            distinct_ids(final(self)@),
            has_visible(old(self)@, transaction_id) ==> {
                let i = row_index(old(self)@, transaction_id);
                r == Some(old(self)@[i]) && final(self)@ == old(self)@.update(
                    i,
                    soft_deleted_row(old(self)@[i], now),
                )
            },
            !has_visible(old(self)@, transaction_id) ==> r is None && final(self)@ == old(self)@,
    {
        match self.position_of(transaction_id) {
            Some(i) => {
                proof {
                    lemma_row_index_unique(self@, transaction_id, i as int);
                }
                if self.transactions[i].deleted_at.is_none() {
                    let prior = self.transactions[i].duplicate();
                    let mut marked = prior.duplicate();
                    marked.updated_at = Some(now);
                    marked.deleted_at = Some(now);
                    proof {
                        lemma_update_preserves_distinct(self@, i as int, marked);
                    }
                    self.transactions.set(i, marked);
                    Some(prior)
                } else {
                    None
                }
            },
            None => None,
        }
    }

    /// Writes the caller-editable fields of the incoming entity over the
    /// not-yet-deleted row sharing its id; zero rows affected is `None`.
    pub fn update_transaction_by_id(&mut self, t: Transaction) -> (r: Option<Transaction>)
        requires
            distinct_ids(old(self)@),
        ensures
            distinct_ids(final(self)@),
            has_visible(old(self)@, t.transaction_id) ==> {
                let i = row_index(old(self)@, t.transaction_id);
                let m = merged_row(old(self)@[i], t);
                r == Some(m) && final(self)@ == old(self)@.update(i, m)
            },
            !has_visible(old(self)@, t.transaction_id) ==> r is None && final(self)@ == old(self)@,
    {
        match self.position_of(t.transaction_id) {
            Some(i) => {
                proof {
                    lemma_row_index_unique(self@, t.transaction_id, i as int);
                }
                if self.transactions[i].deleted_at.is_none() {
                    let existing = &self.transactions[i];
                    let merged = Transaction {
                        transaction_id: existing.transaction_id,
                        movement_type: t.movement_type,
                        description: t.description,
                        value: t.value,
                        due_date: t.due_date,
                        category: t.category,
                        account_id: t.account_id,
                        status: existing.status,
                        installment_group: existing.installment_group,
                        installment_number: existing.installment_number,
                        created_at: existing.created_at,
                        updated_at: t.updated_at,
                        deleted_at: existing.deleted_at,
                    };
                    let out = merged.duplicate();
                    proof {
                        lemma_update_preserves_distinct(self@, i as int, merged);
                    }
                    self.transactions.set(i, merged);
                    Some(out)
                } else {
                    None
                }
            },
            None => None,
        }
    }

    /// Transitions the status of the not-yet-deleted row carrying the id and
    /// stamps the update time; zero rows affected is `None`.
    pub fn update_status(
        &mut self,
        transaction_id: u128,
        status: TransactionStatus,
        now: i64,
    ) -> (r: Option<Transaction>)
        requires
            distinct_ids(old(self)@),
        ensures
            distinct_ids(final(self)@),
            has_visible(old(self)@, transaction_id) ==> {
                let i = row_index(old(self)@, transaction_id);
                let m = status_row(old(self)@[i], status, now);
                r == Some(m) && final(self)@ == old(self)@.update(i, m)
            },
            !has_visible(old(self)@, transaction_id) ==> r is None && final(self)@ == old(self)@,
    {
        match self.position_of(transaction_id) {
            Some(i) => {
                proof {
                    lemma_row_index_unique(self@, transaction_id, i as int);
                }
                if self.transactions[i].deleted_at.is_none() {
                    let mut m = self.transactions[i].duplicate();
                    m.status = status;
                    m.updated_at = Some(now);
                    let out = m.duplicate();
                    proof {
                        lemma_update_preserves_distinct(self@, i as int, m);
                    }
                    self.transactions.set(i, m);
                    Some(out)
                } else {
                    None
                }
            },
            None => None,
        }
    }
}

} // verus!

use vstd::prelude::*;

use crate::clock;
use crate::dates::{days_in_month, spec_days_in_month, Date};
use crate::domain::{
    month_number, spec_apply_update, spec_month_number, CreateTransaction, Error, MovementType,
    Transaction, TransactionStatus, UpdateTransaction,
};
use crate::installments::{created_rows, expand_installments, installment_row};
use crate::recurrence::{
    all_recs_wf, already_generated, has_rec, rec_distinct_ids, rec_index, visible_links,
    CreateRecurrenceTransaction, GeneratedTransaction, RecurrenceRepository, RecurrenceTransaction,
};
use crate::store::{
    distinct_ids, has_row, has_visible, period_rows, row_index, row_with_id, soft_deleted_row,
    status_row, visible_rows, TransactionRepository,
};

verus! {

/// Every link points at a row that exists in the ledger, deleted or not.
pub open spec fn links_have_targets(
    rows: Seq<Transaction>,
    links: Seq<GeneratedTransaction>,
) -> bool {
    forall|i: int| 0 <= i < links.len() ==> has_row(rows, links[i].transaction_id)
}

/// No row is both finished and soft-deleted: a finished row cannot be
/// deleted and a deleted row cannot be finished, so the two marks never
/// meet on one row.
pub open spec fn no_finished_deleted(rows: Seq<Transaction>) -> bool {
    forall|i: int|
        0 <= i < rows.len() ==> !(rows[i].spec_is_finished() && rows[i].deleted_at is Some)
}

/// What `getTransactionById` returns: the visible row carrying the id, or
/// absence — missing or soft-deleted — as not-found.
pub open spec fn get_result(rows: Seq<Transaction>, id: u128) -> Result<Transaction, Error> {
    if has_visible(rows, id) {
        Ok(rows[row_index(rows, id)])
    } else {
        Err(Error::TransactionNotFound(id))
    }
}

/// The full effect of `deleteTransactionById`: absence is not-found; a
/// finished transaction refuses deletion whole; otherwise the one row is
/// soft-delete-marked and the prior state is handed back.
pub open spec fn delete_post(
    pre: Seq<Transaction>,
    post: Seq<Transaction>,
    id: u128,
    now: i64,
    r: Result<Transaction, Error>,
) -> bool {
    if !has_visible(pre, id) {
        r == Err::<Transaction, Error>(Error::TransactionNotFound(id)) && post == pre
    } else if pre[row_index(pre, id)].spec_is_finished() {
        r == Err::<Transaction, Error>(Error::TransactionFinished(id)) && post == pre
    } else {
        let i = row_index(pre, id);
        r == Ok::<Transaction, Error>(pre[i]) && post == pre.update(
            i,
            soft_deleted_row(pre[i], now),
        )
    }
}

/// The full effect of `updateTransactionById`: absence is not-found;
/// otherwise the patch lands on the one row, the update time is stamped,
/// and the updated row is handed back.
pub open spec fn update_post(
    pre: Seq<Transaction>,
    post: Seq<Transaction>,
    id: u128,
    data: UpdateTransaction,
    now: i64,
    r: Result<Transaction, Error>,
) -> bool {
    if !has_visible(pre, id) {
        r == Err::<Transaction, Error>(Error::TransactionNotFound(id)) && post == pre
    } else {
        let i = row_index(pre, id);
        let u = spec_apply_update(pre[i], data, now);
        r == Ok::<Transaction, Error>(u) && post == pre.update(i, u)
    }
}

/// The full effect of `finishTransaction`: absence is not-found; a second
/// finish refuses the transition; otherwise the one row moves to the
/// terminal status with the update time stamped.
pub open spec fn finish_post(
    pre: Seq<Transaction>,
    post: Seq<Transaction>,
    id: u128,
    status: TransactionStatus,
    now: i64,
    r: Result<Transaction, Error>,
) -> bool {
    if !has_visible(pre, id) {
        r == Err::<Transaction, Error>(Error::TransactionNotFound(id)) && post == pre
    } else if pre[row_index(pre, id)].spec_is_finished() {
        r == Err::<Transaction, Error>(Error::TransactionFinished(id)) && post == pre
    } else {
        let i = row_index(pre, id);
        let m = status_row(pre[i], status, now);
        r == Ok::<Transaction, Error>(m) && post == pre.update(i, m)
    }
}

/// Identities fit for a new set of rows: pairwise distinct and unused in
/// the ledger, deleted rows included.
pub open spec fn ids_fresh(pre: Seq<Transaction>, ids: Seq<u128>) -> bool {
    &&& forall|a: int, b: int| 0 <= a < b < ids.len() ==> ids[a] != ids[b]
    &&& forall|a: int| 0 <= a < ids.len() ==> !has_row(pre, ids[a])
}

/// The full effect of `createTransaction` under the given identities: with
/// fresh identities the command's installment rows are appended whole and
/// the first row is handed back; an identity collision leaves the ledger
/// untouched and surfaces as a storage fault.
pub open spec fn create_post(
    pre: Seq<Transaction>,
    post: Seq<Transaction>,
    cmd: CreateTransaction,
    ids: Seq<u128>,
    now: i64,
    r: Result<Transaction, Error>,
) -> bool {
    if ids_fresh(pre, ids) {
        r == Ok::<Transaction, Error>(installment_row(cmd, ids, 0, now)) && post == pre
            + created_rows(cmd, ids, now)
    } else {
        r == Err::<Transaction, Error>(Error::DatabaseError) && post == pre
    }
}

/// Two ledgers whose rows carry the same identities position by position
/// hold the same identities.
proof fn lemma_same_ids_has_row(a: Seq<Transaction>, b: Seq<Transaction>)
    requires
        a.len() == b.len(),
        forall|i: int| 0 <= i < a.len() ==> a[i].transaction_id == b[i].transaction_id,
    ensures
        forall|id: u128| has_row(a, id) == has_row(b, id),
{
    assert forall|id: u128| has_row(a, id) == has_row(b, id) by {
        if has_row(a, id) {
            let i = choose|i: int| row_with_id(a, id, i);
            assert(row_with_id(b, id, i));
        }
        if has_row(b, id) {
            let i = choose|i: int| row_with_id(b, id, i);
            assert(row_with_id(a, id, i));
        }
    }
}

/// Appending rows never removes an identity from the ledger.
proof fn lemma_concat_keeps_has_row(a: Seq<Transaction>, b: Seq<Transaction>)
    ensures
        forall|id: u128| has_row(a, id) ==> has_row(a + b, id),
{
    assert forall|id: u128| has_row(a, id) implies has_row(a + b, id) by {
        let i = choose|i: int| row_with_id(a, id, i);
        assert(row_with_id(a + b, id, i));
    }
}

/// The day the recurrence falls due in the period: its day-of-month
/// anchor, clamped to the last day when the month is shorter.
pub open spec fn occurrence_date(reference: i32, month: crate::domain::MonthReference, year: i32) -> Date {
    let m = spec_month_number(month);
    let dim = spec_days_in_month(year as int, m);
    let day = if reference <= dim {
        reference as int
    } else {
        dim
    };
    Date { year, month: m as u8, day: day as u8 }
}

/// The ledger entry a recurrence template spawns for a period: the
/// template's account, description, amount and category, due on the
/// occurrence day, booked as a Pending expense.
pub open spec fn generated_tx(
    rec: RecurrenceTransaction,
    txid: u128,
    month: crate::domain::MonthReference,
    year: i32,
    now: i64,
) -> Transaction {
    Transaction {
        transaction_id: txid,
        movement_type: MovementType::Expense,
        description: rec.description,
        value: rec.amount,
        due_date: occurrence_date(rec.reference, month, year),
        category: rec.category,
        account_id: rec.account_id,
        status: TransactionStatus::Pending,
        installment_group: None,
        installment_number: None,
        created_at: now,
        updated_at: None,
        deleted_at: None,
    }
}

/// The link row recording one generation event.
pub open spec fn new_link(counter: i32, rid: u128, txid: u128, now: i64) -> GeneratedTransaction {
    GeneratedTransaction {
        id: counter,
        recurrence_transaction_id: rid,
        transaction_id: txid,
        created_at: now,
        deleted_at: None,
    }
}

/// The full effect of one recurrence expansion run for a period, under the
/// given transaction identity: an absent template is not-found; an
/// inactive or soft-deleted template is never expanded; a period that
/// already has a generated entry is left alone; otherwise one Pending
/// entry and one link are appended, atomically.
pub open spec fn expand_post(
    recs: Seq<RecurrenceTransaction>,
    pre_tx: Seq<Transaction>,
    pre_links: Seq<GeneratedTransaction>,
    counter: i32,
    post_tx: Seq<Transaction>,
    post_links: Seq<GeneratedTransaction>,
    post_counter: i32,
    rid: u128,
    month: crate::domain::MonthReference,
    year: i32,
    txid: u128,
    now: i64,
    r: Result<Option<Transaction>, Error>,
) -> bool {
    if !has_rec(recs, rid) {
        &&& r == Err::<Option<Transaction>, Error>(Error::TransactionNotFound(rid))
        &&& post_tx == pre_tx
        &&& post_links == pre_links
        &&& post_counter == counter
    } else {
        let rec = recs[rec_index(recs, rid)];
        if rec.deleted_at is Some || !rec.is_active {
            &&& r == Ok::<Option<Transaction>, Error>(None)
            &&& post_tx == pre_tx
            &&& post_links == pre_links
            &&& post_counter == counter
        } else if already_generated(pre_tx, pre_links, rid, month, year) {
            &&& r == Ok::<Option<Transaction>, Error>(None)
            &&& post_tx == pre_tx
            &&& post_links == pre_links
            &&& post_counter == counter
        } else if has_row(pre_tx, txid) {
            &&& r == Err::<Option<Transaction>, Error>(Error::DatabaseError)
            &&& post_tx == pre_tx
            &&& post_links == pre_links
            &&& post_counter == counter
        } else {
            let t = generated_tx(rec, txid, month, year, now);
            &&& r == Ok::<Option<Transaction>, Error>(Some(t))
            &&& post_tx == pre_tx.push(t)
            &&& post_links == pre_links.push(new_link(counter, rid, txid, now))
            &&& post_counter == counter + 1
        }
    }
}

/// The template row a creation command builds: active from the start,
/// with its own identity and creation stamp.
pub open spec fn recurrence_row(
    cmd: CreateRecurrenceTransaction,
    id: u128,
    now: i64,
) -> RecurrenceTransaction {
    RecurrenceTransaction {
        recurrence_transaction_id: id,
        account_id: cmd.account_id,
        description: cmd.description,
        amount: cmd.amount,
        frequency: cmd.frequency,
        reference: cmd.reference,
        category: cmd.category,
        is_active: true,
        start_date: cmd.start_date,
        created_at: now,
        updated_at: None,
        deleted_at: None,
    }
}

/// The full effect of creating a recurrence template under the given
/// identity: a fresh identity appends the row; a collision leaves the
/// store untouched and surfaces as a storage fault.
pub open spec fn rec_create_post(
    pre: Seq<RecurrenceTransaction>,
    post: Seq<RecurrenceTransaction>,
    cmd: CreateRecurrenceTransaction,
    id: u128,
    now: i64,
    r: Result<RecurrenceTransaction, Error>,
) -> bool {
    if !has_rec(pre, id) {
        r == Ok::<RecurrenceTransaction, Error>(recurrence_row(cmd, id, now)) && post == pre.push(
            recurrence_row(cmd, id, now),
        )
    } else {
        r == Err::<RecurrenceTransaction, Error>(Error::DatabaseError) && post == pre
    }
}

/// The orchestrator: it owns the repositories, enforces the lifecycle
/// state machine, translates absence into domain errors, and drives
/// installment and recurrence expansion.
pub struct Handler {
    transaction_repository: TransactionRepository,
    recurrence_repository: RecurrenceRepository,
}

impl Handler {
    /// The ledger rows, deleted or not, in insertion order.
    pub closed spec fn transactions(&self) -> Seq<Transaction> {
        self.transaction_repository@
    }

    /// The recurrence template rows, deleted or not, in insertion order.
    pub closed spec fn recurrences(&self) -> Seq<RecurrenceTransaction> {
        self.recurrence_repository.recs()
    }

    /// The generation link rows, deleted or not, in insertion order.
    pub closed spec fn links(&self) -> Seq<GeneratedTransaction> {
        self.recurrence_repository.link_rows()
    }

    /// The identity the next generation link will receive.
    pub closed spec fn link_counter(&self) -> i32 {
        self.recurrence_repository.counter()
    }

    /// The system invariant every operation preserves: identities are
    /// distinct, no row is both finished and deleted, templates are well
    /// shaped, and links point at existing ledger rows.
    pub open spec fn inv(&self) -> bool {
        &&& distinct_ids(self.transactions())
        &&& no_finished_deleted(self.transactions())
        &&& rec_distinct_ids(self.recurrences())
        &&& all_recs_wf(self.recurrences())
        &&& links_have_targets(self.transactions(), self.links())
    }

    /// Wires the orchestrator to its repositories.
    pub fn new(
        transaction_repository: TransactionRepository,
        recurrence_repository: RecurrenceRepository,
    ) -> (r: Handler)
        requires
            distinct_ids(transaction_repository@),
            no_finished_deleted(transaction_repository@),
            rec_distinct_ids(recurrence_repository.recs()),
            all_recs_wf(recurrence_repository.recs()),
            links_have_targets(transaction_repository@, recurrence_repository.link_rows()),
        ensures
            r.inv(),
            r.transactions() == transaction_repository@,
            r.recurrences() == recurrence_repository.recs(),
            r.links() == recurrence_repository.link_rows(),
            r.link_counter() == recurrence_repository.counter(),
    {
        Handler { transaction_repository, recurrence_repository }
    }

    /// The entity carrying the id, or not-found when it is absent or
    /// soft-deleted.
    pub fn get_transaction_by_id(&self, transaction_id: u128) -> (r: Result<Transaction, Error>)
        requires
            self.inv(),
        ensures
            r == get_result(self.transactions(), transaction_id),
    {
        match self.transaction_repository.get_transaction_by_id(transaction_id) {
            Some(t) => Ok(t),
            None => Err(Error::TransactionNotFound(transaction_id)),
        }
    }

    /// All non-deleted transactions, in insertion order.
    pub fn list_transactions(&self) -> (r: Vec<Transaction>)
        requires
            self.inv(),
        ensures
            r@ == visible_rows(self.transactions()),
    {
        self.transaction_repository.list_transactions()
    }

    /// The non-deleted transactions whose due date falls in the month and
    /// year, in insertion order.
    pub fn list_transactions_by_period(
        &self,
        month: crate::domain::MonthReference,
        year: i32,
    ) -> (r: Vec<Transaction>)
        requires
            self.inv(),
        ensures
            r@ == period_rows(self.transactions(), month, year),
    {
        self.transaction_repository.list_transactions_by_period(month, year)
    }

    /// Soft-deletes the transaction at the given clock reading and hands
    /// back its prior state; a finished transaction refuses deletion.
    pub fn delete_transaction_by_id_at(&mut self, transaction_id: u128, now: i64) -> (r: Result<
        Transaction,
        Error,
    >)
        requires
            old(self).inv(),
        ensures
            final(self).inv(),
            delete_post(
                old(self).transactions(),
                final(self).transactions(),
                transaction_id,
                now,
                r,
            ),
            final(self).recurrences() == old(self).recurrences(),
            final(self).links() == old(self).links(),
            final(self).link_counter() == old(self).link_counter(),
    {
        let result = match self.transaction_repository.get_transaction_by_id(transaction_id) {
            Some(t) => t,
            None => {
                return Err(Error::TransactionNotFound(transaction_id));
            },
        };
        if result.is_finished() {
            return Err(Error::TransactionFinished(result.transaction_id));
        }
        match self.transaction_repository.delete_transaction_by_id(transaction_id, now) {
            Some(prior) => {
                proof {
                    let pre = old(self).transactions();
                    let post = self.transactions();
                    let i = row_index(pre, transaction_id);
                    assert forall|j: int|
                        0 <= j < post.len() implies !(post[j].spec_is_finished() && post[j]
                        .deleted_at is Some) by {
                        if j != i {
                            assert(post[j] == pre[j]);
                        }
                    }
                    assert forall|j: int| 0 <= j < post.len() implies post[j].transaction_id
                        == pre[j].transaction_id by {
                        if j != i {
                            assert(post[j] == pre[j]);
                        }
                    }
                    lemma_same_ids_has_row(pre, post);
                }
                Ok(prior)
            },
            None => Err(Error::TransactionNotFound(transaction_id)),
        }
    }

    /// Soft-deletes the transaction, stamping the system clock, and hands
    /// back its prior state; a finished transaction refuses deletion.
    pub fn delete_transaction_by_id(&mut self, transaction_id: u128) -> (r: Result<
        Transaction,
        Error,
    >)
        requires
            old(self).inv(),
        ensures
            final(self).inv(),
            exists|now: i64|
                delete_post(
                    old(self).transactions(),
                    final(self).transactions(),
                    transaction_id,
                    now,
                    r,
                ),
            final(self).recurrences() == old(self).recurrences(),
            final(self).links() == old(self).links(),
            final(self).link_counter() == old(self).link_counter(),
    {
        let now = clock::now_millis();
        let r = self.delete_transaction_by_id_at(transaction_id, now);
        proof {
            assert(delete_post(
                old(self).transactions(),
                self.transactions(),
                transaction_id,
                now,
                r,
            ));
        }
        r
    }

    /// Applies the patch to the transaction at the given clock reading:
    /// fields present in the patch replace the old ones, the rest are left
    /// unchanged, and the update time is stamped.
    pub fn update_transaction_by_id_at(
        &mut self,
        transaction_id: u128,
        payload: UpdateTransaction,
        now: i64,
    ) -> (r: Result<Transaction, Error>)
        requires
            old(self).inv(),
        ensures
            final(self).inv(),
            update_post(
                old(self).transactions(),
                final(self).transactions(),
                transaction_id,
                payload,
                now,
                r,
            ),
            final(self).recurrences() == old(self).recurrences(),
            final(self).links() == old(self).links(),
            final(self).link_counter() == old(self).link_counter(),
    {
        let mut entity = match self.transaction_repository.get_transaction_by_id(transaction_id) {
            Some(t) => t,
            None => {
                return Err(Error::TransactionNotFound(transaction_id));
            },
        };
        entity.update_at(payload, now);
        let ghost pre = old(self).transactions();
        let ghost i = row_index(pre, transaction_id);
        proof {
            assert(crate::store::merged_row(pre[i], entity) == entity);
        }
        match self.transaction_repository.update_transaction_by_id(entity) {
            Some(updated) => {
                proof {
                    let post = self.transactions();
                    assert forall|j: int|
                        0 <= j < post.len() implies !(post[j].spec_is_finished() && post[j]
                        .deleted_at is Some) by {
                        if j != i {
                            assert(post[j] == pre[j]);
                        }
                    }
                    assert forall|j: int| 0 <= j < post.len() implies post[j].transaction_id
                        == pre[j].transaction_id by {
                        if j != i {
                            assert(post[j] == pre[j]);
                        }
                    }
                    lemma_same_ids_has_row(pre, post);
                }
                Ok(updated)
            },
            None => Err(Error::TransactionNotFound(transaction_id)),
        }
    }

    /// Applies the patch to the transaction, stamping the system clock.
    pub fn update_transaction_by_id(
        &mut self,
        transaction_id: u128,
        payload: UpdateTransaction,
    ) -> (r: Result<Transaction, Error>)
        requires
            old(self).inv(),
        ensures
            final(self).inv(),
            exists|now: i64|
                update_post(
                    old(self).transactions(),
                    final(self).transactions(),
                    transaction_id,
                    payload,
                    now,
                    r,
                ),
            final(self).recurrences() == old(self).recurrences(),
            final(self).links() == old(self).links(),
            final(self).link_counter() == old(self).link_counter(),
    {
        let ghost payload0 = payload;
        let now = clock::now_millis();
        let r = self.update_transaction_by_id_at(transaction_id, payload, now);
        proof {
            assert(update_post(
                old(self).transactions(),
                self.transactions(),
                transaction_id,
                payload0,
                now,
                r,
            ));
        }
        r
    }

    /// Transitions the transaction to a terminal status at the given clock
    /// reading. Finishing is one-way: a finished transaction refuses any
    /// further transition.
    pub fn finish_transaction_at(
        &mut self,
        transaction_id: u128,
        status: TransactionStatus,
        now: i64,
    ) -> (r: Result<Transaction, Error>)
        requires
            old(self).inv(),
            status != TransactionStatus::Pending,
        ensures
            final(self).inv(),
            finish_post(
                old(self).transactions(),
                final(self).transactions(),
                transaction_id,
                status,
                now,
                r,
            ),
            final(self).recurrences() == old(self).recurrences(),
            final(self).links() == old(self).links(),
            final(self).link_counter() == old(self).link_counter(),
    {
        let result = match self.transaction_repository.get_transaction_by_id(transaction_id) {
            Some(t) => t,
            None => {
                return Err(Error::TransactionNotFound(transaction_id));
            },
        };
        if result.is_finished() {
            return Err(Error::TransactionFinished(result.transaction_id));
        }
        match self.transaction_repository.update_status(transaction_id, status, now) {
            Some(updated) => {
                proof {
                    let pre = old(self).transactions();
                    let post = self.transactions();
                    let i = row_index(pre, transaction_id);
                    assert forall|j: int|
                        0 <= j < post.len() implies !(post[j].spec_is_finished() && post[j]
                        .deleted_at is Some) by {
                        if j != i {
                            assert(post[j] == pre[j]);
                        }
                    }
                    assert forall|j: int| 0 <= j < post.len() implies post[j].transaction_id
                        == pre[j].transaction_id by {
                        if j != i {
                            assert(post[j] == pre[j]);
                        }
                    }
                    lemma_same_ids_has_row(pre, post);
                }
                Ok(updated)
            },
            None => Err(Error::TransactionNotFound(transaction_id)),
        }
    }

    /// Transitions the transaction to a terminal status, stamping the
    /// system clock. Finishing is one-way.
    pub fn finish_transaction(&mut self, transaction_id: u128, status: TransactionStatus) -> (r:
        Result<Transaction, Error>)
        requires
            old(self).inv(),
            status != TransactionStatus::Pending,
        ensures
            final(self).inv(),
            exists|now: i64|
                finish_post(
                    old(self).transactions(),
                    final(self).transactions(),
                    transaction_id,
                    status,
                    now,
                    r,
                ),
            final(self).recurrences() == old(self).recurrences(),
            final(self).links() == old(self).links(),
            final(self).link_counter() == old(self).link_counter(),
    {
        let now = clock::now_millis();
        let r = self.finish_transaction_at(transaction_id, status, now);
        proof {
            assert(finish_post(
                old(self).transactions(),
                self.transactions(),
                transaction_id,
                status,
                now,
                r,
            ));
        }
        r
    }

    /// Creates the command's installment rows under the given identities
    /// and clock reading: all rows are appended, or none on an identity
    /// collision, and the first row is handed back.
    pub fn create_transaction_at(
        &mut self,
        payload: CreateTransaction,
        ids: &Vec<u128>,
        now: i64,
    ) -> (r: Result<Transaction, Error>)
        requires
            old(self).inv(),
            payload.wf(),
            ids@.len() == payload.installments as int,
        ensures
            final(self).inv(),
            create_post(
                old(self).transactions(),
                final(self).transactions(),
                payload,
                ids@,
                now,
                r,
            ),
            final(self).recurrences() == old(self).recurrences(),
            final(self).links() == old(self).links(),
            final(self).link_counter() == old(self).link_counter(),
    {
        let n = ids.len();
        let mut a: usize = 0;
        while a < n
            invariant
                a <= n,
                n == ids@.len(),
                *self == *old(self),
                old(self).inv(),
                forall|x: int, y: int| 0 <= x < y < ids@.len() && x < a ==> ids@[x] != ids@[y],
            decreases n - a,
        {
            let mut b = a + 1;
            while b < n
                invariant
                    a < b <= n,
                    n == ids@.len(),
                    *self == *old(self),
                    old(self).inv(),
                    forall|y: int| a < y < b ==> ids@[a as int] != ids@[y],
                decreases n - b,
            {
                if ids[a] == ids[b] {
                    return Err(Error::DatabaseError);
                }
                b += 1;
            }
            a += 1;
        }
        let mut c: usize = 0;
        while c < n
            invariant
                c <= n,
                n == ids@.len(),
                *self == *old(self),
                old(self).inv(),
                forall|x: int| 0 <= x < c ==> !has_row(self.transactions(), ids@[x]),
            decreases n - c,
        {
            if self.transaction_repository.contains_id(ids[c]) {
                return Err(Error::DatabaseError);
            }
            c += 1;
        }
        let ghost pre = self.transactions();
        proof {
            assert(ids_fresh(pre, ids@));
        }
        let rows = expand_installments(&payload, ids, now);
        let mut idx: usize = 0;
        while idx < n
            invariant
                n == ids@.len(),
                idx <= n,
                payload.wf(),
                n == payload.installments as int,
                rows@ == created_rows(payload, ids@, now),
                ids_fresh(pre, ids@),
                pre == old(self).transactions(),
                old(self).inv(),
                distinct_ids(self.transactions()),
                self.transactions() == pre + created_rows(payload, ids@, now).take(idx as int),
                self.recurrences() == old(self).recurrences(),
                self.links() == old(self).links(),
                self.link_counter() == old(self).link_counter(),
            decreases n - idx,
        {
            let row = rows[idx].duplicate();
            proof {
                let cur = self.transactions();
                let newrows = created_rows(payload, ids@, now);
                assert(row.transaction_id == ids@[idx as int]);
                assert forall|j: int| !row_with_id(cur, ids@[idx as int], j) by {
                    if 0 <= j < cur.len() {
                        if j < pre.len() {
                            assert(!has_row(pre, ids@[idx as int]));
                            assert(!row_with_id(pre, ids@[idx as int], j));
                        } else {
                            let j2 = j - pre.len();
                            assert(cur[j] == newrows.take(idx as int)[j2]);
                            assert(newrows[j2].transaction_id == ids@[j2]);
                        }
                    }
                }
                assert(!has_row(cur, ids@[idx as int]));
            }
            let created = self.transaction_repository.create_transaction(row);
            proof {
                assert(created);
                assert(self.transactions() =~= pre + created_rows(payload, ids@, now).take(
                    idx + 1,
                ));
            }
            idx += 1;
        }
        proof {
            let newrows = created_rows(payload, ids@, now);
            assert(newrows.take(n as int) =~= newrows);
            let post = self.transactions();
            assert forall|j: int|
                0 <= j < post.len() implies !(post[j].spec_is_finished() && post[j]
                .deleted_at is Some) by {
                if j >= pre.len() {
                    assert(post[j] == newrows[j - pre.len()]);
                    assert(post[j].status == TransactionStatus::Pending);
                }
            }
            lemma_concat_keeps_has_row(pre, newrows);
        }
        let first = rows[0].duplicate();
        Ok(first)
    }

    /// Creates the command\'s installment rows, minting fresh identities
    /// and stamping the system clock: one Pending row per installment,
    /// dated a month apart, the value split exactly.
    pub fn create_transaction(&mut self, payload: CreateTransaction) -> (r: Result<
        Transaction,
        Error,
    >)
        requires
            old(self).inv(),
            payload.wf(),
        ensures
            final(self).inv(),
            exists|ids: Seq<u128>, now: i64|
                ids.len() == payload.installments as int && create_post(
                    old(self).transactions(),
                    final(self).transactions(),
                    payload,
                    ids,
                    now,
                    r,
                ),
            final(self).recurrences() == old(self).recurrences(),
            final(self).links() == old(self).links(),
            final(self).link_counter() == old(self).link_counter(),
    {
        let ghost payload0 = payload;
        let now = clock::now_millis();
        let n = payload.installments;
        let mut minted: Vec<u128> = Vec::new();
        let mut k: i16 = 0;
        while k < n
            invariant
                0 <= k <= n,
                minted@.len() == k as int,
            decreases n - k,
        {
            minted.push(crate::ids::mint_id());
            k += 1;
        }
        let r = self.create_transaction_at(payload, &minted, now);
        proof {
            assert(create_post(
                old(self).transactions(),
                self.transactions(),
                payload0,
                minted@,
                now,
                r,
            ));
        }
        r
    }

    /// Creates a recurrence template under the given identity and clock
    /// reading.
    pub fn create_recurrence_transaction_at(
        &mut self,
        payload: CreateRecurrenceTransaction,
        recurrence_transaction_id: u128,
        now: i64,
    ) -> (r: Result<RecurrenceTransaction, Error>)
        requires
            old(self).inv(),
            payload.wf(),
        ensures
            final(self).inv(),
            rec_create_post(
                old(self).recurrences(),
                final(self).recurrences(),
                payload,
                recurrence_transaction_id,
                now,
                r,
            ),
            final(self).transactions() == old(self).transactions(),
            final(self).links() == old(self).links(),
            final(self).link_counter() == old(self).link_counter(),
    {
        let row = RecurrenceTransaction {
            recurrence_transaction_id,
            account_id: payload.account_id,
            description: payload.description,
            amount: payload.amount,
            frequency: payload.frequency,
            reference: payload.reference,
            category: payload.category,
            is_active: true,
            start_date: payload.start_date,
            created_at: now,
            updated_at: None,
            deleted_at: None,
        };
        let out = row.duplicate();
        let created = self.recurrence_repository.create_recurrence_transaction(row);
        if created {
            proof {
                let post = self.recurrences();
                assert forall|j: int| 0 <= j < post.len() implies post[j].wf() by {
                    if j < old(self).recurrences().len() {
                        assert(post[j] == old(self).recurrences()[j]);
                    }
                }
            }
            Ok(out)
        } else {
            Err(Error::DatabaseError)
        }
    }

    /// Creates a recurrence template, minting a fresh identity and
    /// stamping the system clock.
    pub fn create_recurrence_transaction(&mut self, payload: CreateRecurrenceTransaction) -> (r:
        Result<RecurrenceTransaction, Error>)
        requires
            old(self).inv(),
            payload.wf(),
        ensures
            final(self).inv(),
            exists|id: u128, now: i64|
                rec_create_post(
                    old(self).recurrences(),
                    final(self).recurrences(),
                    payload,
                    id,
                    now,
                    r,
                ),
            final(self).transactions() == old(self).transactions(),
            final(self).links() == old(self).links(),
            final(self).link_counter() == old(self).link_counter(),
    {
        let ghost payload0 = payload;
        let id = crate::ids::mint_id();
        let now = clock::now_millis();
        let r = self.create_recurrence_transaction_at(payload, id, now);
        proof {
            assert(rec_create_post(
                old(self).recurrences(),
                self.recurrences(),
                payload0,
                id,
                now,
                r,
            ));
        }
        r
    }

    /// Runs recurrence expansion for one period under the given
    /// transaction identity and clock reading. Expansion is idempotent: a
    /// period that already has a generated entry is left alone.
    pub fn expand_recurrence_at(
        &mut self,
        recurrence_transaction_id: u128,
        month: crate::domain::MonthReference,
        year: i32,
        transaction_id: u128,
        now: i64,
    ) -> (r: Result<Option<Transaction>, Error>)
        requires
            old(self).inv(),
            1 <= year <= 9999,
            old(self).link_counter() < i32::MAX,
        ensures
            final(self).inv(),
            expand_post(
                old(self).recurrences(),
                old(self).transactions(),
                old(self).links(),
                old(self).link_counter(),
                final(self).transactions(),
                final(self).links(),
                final(self).link_counter(),
                recurrence_transaction_id,
                month,
                year,
                transaction_id,
                now,
                r,
            ),
            final(self).recurrences() == old(self).recurrences(),
    {
        let rec = match self.recurrence_repository.find_recurrence(recurrence_transaction_id) {
            Some(t) => t,
            None => {
                return Err(Error::TransactionNotFound(recurrence_transaction_id));
            },
        };
        if rec.deleted_at.is_some() || !rec.is_active {
            return Ok(None);
        }
        if self.recurrence_repository.find_period_link(
            &self.transaction_repository,
            recurrence_transaction_id,
            month,
            year,
        ) {
            return Ok(None);
        }
        if self.transaction_repository.contains_id(transaction_id) {
            return Err(Error::DatabaseError);
        }
        proof {
            assert(rec.wf());
        }
        let m = month_number(month);
        let dim = days_in_month(year, m);
        let day: u8 = if rec.reference <= dim as i32 {
            rec.reference as u8
        } else {
            dim
        };
        let due_date = Date { year, month: m, day };
        let t = Transaction {
            transaction_id,
            movement_type: MovementType::Expense,
            description: rec.description.clone(),
            value: rec.amount,
            due_date,
            category: rec.category,
            account_id: rec.account_id,
            status: TransactionStatus::Pending,
            installment_group: None,
            installment_number: None,
            created_at: now,
            updated_at: None,
            deleted_at: None,
        };
        proof {
            assert(t == generated_tx(
                old(self).recurrences()[rec_index(
                    old(self).recurrences(),
                    recurrence_transaction_id,
                )],
                transaction_id,
                month,
                year,
                now,
            ));
        }
        let out = t.duplicate();
        let created = self.transaction_repository.create_transaction(t);
        proof {
            assert(created);
        }
        let _link = self.recurrence_repository.create_link(
            recurrence_transaction_id,
            transaction_id,
            now,
        );
        proof {
            let pre = old(self).transactions();
            let post = self.transactions();
            assert forall|j: int|
                0 <= j < post.len() implies !(post[j].spec_is_finished() && post[j]
                .deleted_at is Some) by {
                if j < pre.len() {
                    assert(post[j] == pre[j]);
                }
            }
            assert forall|j: int| 0 <= j < self.links().len() implies has_row(
                post,
                self.links()[j].transaction_id,
            ) by {
                if j < old(self).links().len() {
                    assert(has_row(pre, self.links()[j].transaction_id));
                    let w = choose|w: int|
                        row_with_id(pre, self.links()[j].transaction_id, w);
                    assert(row_with_id(post, self.links()[j].transaction_id, w));
                } else {
                    assert(row_with_id(post, transaction_id, pre.len() as int));
                }
            }
        }
        Ok(Some(out))
    }

    /// Runs recurrence expansion for one period, minting the identity of
    /// the entry it may create and stamping the system clock.
    pub fn expand_recurrence(
        &mut self,
        recurrence_transaction_id: u128,
        month: crate::domain::MonthReference,
        year: i32,
    ) -> (r: Result<Option<Transaction>, Error>)
        requires
            old(self).inv(),
            1 <= year <= 9999,
            old(self).link_counter() < i32::MAX,
        ensures
            final(self).inv(),
            exists|txid: u128, now: i64|
                expand_post(
                    old(self).recurrences(),
                    old(self).transactions(),
                    old(self).links(),
                    old(self).link_counter(),
                    final(self).transactions(),
                    final(self).links(),
                    final(self).link_counter(),
                    recurrence_transaction_id,
                    month,
                    year,
                    txid,
                    now,
                    r,
                ),
            final(self).recurrences() == old(self).recurrences(),
    {
        let txid = crate::ids::mint_id();
        let now = clock::now_millis();
        let r = self.expand_recurrence_at(recurrence_transaction_id, month, year, txid, now);
        proof {
            assert(expand_post(
                old(self).recurrences(),
                old(self).transactions(),
                old(self).links(),
                old(self).link_counter(),
                self.transactions(),
                self.links(),
                self.link_counter(),
                recurrence_transaction_id,
                month,
                year,
                txid,
                now,
                r,
            ));
        }
        r
    }

    /// The generation links that are not marked deleted, in insertion
    /// order.
    pub fn list_generated_transactions(&self) -> (r: Vec<GeneratedTransaction>)
        requires
            self.inv(),
        ensures
            r@ == visible_links(self.links()),
    {
        self.recurrence_repository.list_generated_transactions()
    }
}

} // verus!

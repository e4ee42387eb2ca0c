use vstd::prelude::*;

use crate::domain::{spec_apply_update, Error, Transaction, TransactionStatus, UpdateTransaction};
use crate::handler::{
    delete_post, expand_post, finish_post, generated_tx, links_have_targets, new_link,
    no_finished_deleted, occurrence_date,
};
use crate::recurrence::{
    already_generated, link_matches, rec_index, GeneratedTransaction, RecurrenceTransaction,
};
use crate::store::{
    distinct_ids, lemma_push_preserves_distinct, lemma_row_index_unique,
    lemma_update_preserves_distinct, row_index, row_with_id, soft_deleted_row, status_row,
};

verus! {

/// The lifecycle is one-way: a transaction leaves the Pending state only
/// for a terminal status, and once finished every further finish call on
/// the same id fails as already finished and changes nothing.
pub proof fn lemma_finish_is_one_way(
    pre: Seq<Transaction>,
    mid: Seq<Transaction>,
    post: Seq<Transaction>,
    id: u128,
    s1: TransactionStatus,
    s2: TransactionStatus,
    now1: i64,
    now2: i64,
    r1: Result<Transaction, Error>,
    r2: Result<Transaction, Error>,
)
    requires
        distinct_ids(pre),
        s1 != TransactionStatus::Pending,
        s2 != TransactionStatus::Pending,
        finish_post(pre, mid, id, s1, now1, r1),
        r1 is Ok,
        finish_post(mid, post, id, s2, now2, r2),
    ensures
        pre[row_index(pre, id)].status == TransactionStatus::Pending,
        r1 == Ok::<Transaction, Error>(status_row(pre[row_index(pre, id)], s1, now1)),
        r2 == Err::<Transaction, Error>(Error::TransactionFinished(id)),
        post == mid,
{
    let i = row_index(pre, id);
    assert(row_with_id(pre, id, i));
    let m = status_row(pre[i], s1, now1);
    lemma_update_preserves_distinct(pre, i, m);
    assert(row_with_id(mid, id, i));
    lemma_row_index_unique(mid, id, i);
    assert(mid[i].spec_is_finished());
}

/// Deleting a finished transaction always fails as already finished and
/// changes nothing. Under the system invariant a finished row is never
/// soft-deleted, so the refusal holds in every reachable deletion state.
pub proof fn lemma_delete_finished_fails(
    rows: Seq<Transaction>,
    post: Seq<Transaction>,
    id: u128,
    now: i64,
    r: Result<Transaction, Error>,
    i: int,
)
    requires
        distinct_ids(rows),
        no_finished_deleted(rows),
        row_with_id(rows, id, i),
        rows[i].spec_is_finished(),
        delete_post(rows, post, id, now, r),
    ensures
        r == Err::<Transaction, Error>(Error::TransactionFinished(id)),
        post == rows,
{
    lemma_row_index_unique(rows, id, i);
}

/// Soft delete is idempotent in effect but not in result: the first call
/// hands back the prior entity and marks the row; a second call on the
/// same id finds nothing, fails as not found, and changes nothing.
pub proof fn lemma_delete_twice(
    pre: Seq<Transaction>,
    mid: Seq<Transaction>,
    post: Seq<Transaction>,
    id: u128,
    now1: i64,
    now2: i64,
    r1: Result<Transaction, Error>,
    r2: Result<Transaction, Error>,
)
    requires
        distinct_ids(pre),
        delete_post(pre, mid, id, now1, r1),
        r1 is Ok,
        delete_post(mid, post, id, now2, r2),
    ensures
        r1 == Ok::<Transaction, Error>(pre[row_index(pre, id)]),
        r2 == Err::<Transaction, Error>(Error::TransactionNotFound(id)),
        post == mid,
{
    let i = row_index(pre, id);
    assert(row_with_id(pre, id, i));
    let m = soft_deleted_row(pre[i], now1);
    lemma_update_preserves_distinct(pre, i, m);
    assert(row_with_id(mid, id, i));
    lemma_row_index_unique(mid, id, i);
    assert(mid[i].deleted_at is Some);
}

/// A patch holding only a description leaves every other field of the
/// entity unchanged; only the description and the update stamp move, and
/// the stamp strictly increases whenever the clock reads later than the
/// stored stamp.
pub proof fn lemma_update_description_only(t: Transaction, data: UpdateTransaction, now: i64)
    requires
        data.movement_type is None,
        data.value is None,
        data.due_date is None,
        data.category is None,
        data.account_id is None,
        data.description is Some,
        match t.updated_at {
            Some(u) => u < now,
            None => true,
        },
    ensures
        ({
            let u = spec_apply_update(t, data, now);
            &&& u.transaction_id == t.transaction_id
            &&& u.movement_type == t.movement_type
            &&& u.value == t.value
            &&& u.due_date == t.due_date
            &&& u.category == t.category
            &&& u.account_id == t.account_id
            &&& u.status == t.status
            &&& u.installment_group == t.installment_group
            &&& u.installment_number == t.installment_number
            &&& u.created_at == t.created_at
            &&& u.deleted_at == t.deleted_at
            &&& u.description == data.description.unwrap()
            &&& u.updated_at == Some(now)
            &&& (t.updated_at is Some ==> t.updated_at.unwrap() < u.updated_at.unwrap())
        }),
{
}

/// Expansion is idempotent per period: one successful run appends exactly
/// one entry and one link, after which the period counts as generated, so
/// a second run for the same recurrence and period reports nothing new
/// and changes nothing.
pub proof fn lemma_expand_idempotent(
    recs: Seq<RecurrenceTransaction>,
    pre_tx: Seq<Transaction>,
    pre_links: Seq<GeneratedTransaction>,
    c1: i32,
    mid_tx: Seq<Transaction>,
    mid_links: Seq<GeneratedTransaction>,
    c2: i32,
    post_tx: Seq<Transaction>,
    post_links: Seq<GeneratedTransaction>,
    c3: i32,
    rid: u128,
    month: crate::domain::MonthReference,
    year: i32,
    txid1: u128,
    txid2: u128,
    now1: i64,
    now2: i64,
    r1: Result<Option<Transaction>, Error>,
    r2: Result<Option<Transaction>, Error>,
)
    requires
        distinct_ids(pre_tx),
        expand_post(
            recs,
            pre_tx,
            pre_links,
            c1,
            mid_tx,
            mid_links,
            c2,
            rid,
            month,
            year,
            txid1,
            now1,
            r1,
        ),
        r1 is Ok && r1.unwrap() is Some,
        expand_post(
            recs,
            mid_tx,
            mid_links,
            c2,
            post_tx,
            post_links,
            c3,
            rid,
            month,
            year,
            txid2,
            now2,
            r2,
        ),
    ensures
        mid_tx == pre_tx.push(
            generated_tx(recs[rec_index(recs, rid)], txid1, month, year, now1),
        ),
        mid_links == pre_links.push(new_link(c1, rid, txid1, now1)),
        r2 == Ok::<Option<Transaction>, Error>(None),
        post_tx == mid_tx,
        post_links == mid_links,
        c3 == c2,
{
    let rec = recs[rec_index(recs, rid)];
    let t = generated_tx(rec, txid1, month, year, now1);
    let l = new_link(c1, rid, txid1, now1);
    assert(t.transaction_id == txid1);
    lemma_push_preserves_distinct(pre_tx, t);
    assert(row_with_id(mid_tx, txid1, pre_tx.len() as int));
    lemma_row_index_unique(mid_tx, txid1, pre_tx.len() as int);
    assert(mid_tx[pre_tx.len() as int] == t);
    assert(t.due_date == occurrence_date(rec.reference, month, year));
    assert(link_matches(mid_tx, mid_links[pre_links.len() as int], rid, month, year));
    assert(already_generated(mid_tx, mid_links, rid, month, year));
}

} // verus!

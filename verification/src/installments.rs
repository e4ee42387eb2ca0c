use vstd::prelude::*;

use vstd::arithmetic::div_mod::lemma_fundamental_div_mod;

use crate::dates::{add_months, spec_add_months};
use crate::domain::{CreateTransaction, Transaction, TransactionStatus};

verus! {

/// The value, in cents, of installment `k` out of `n` shares of a total:
/// the equal truncated share, with the whole rounding remainder assigned
/// to the first installment, so that the shares sum exactly to the total.
pub open spec fn spec_installment_value(total: i64, n: int, k: int) -> int {
    if k == 0 {
        total as int / n + total as int % n
    } else {
        total as int / n
    }
}

/// The truncated share and the remainder are non-negative and their sum
/// stays within the total, so every share fits the value's range.
pub proof fn lemma_share_bounds(total: i64, n: int)
    requires
        0 <= total,
        1 <= n,
    ensures
        0 <= total as int / n,
        0 <= total as int % n,
        total as int / n + total as int % n <= total,
{
    lemma_fundamental_div_mod(total as int, n);
    let q = total as int / n;
    let r = total as int % n;
    assert(0 <= q && 0 <= r) by (nonlinear_arith)
        requires
            0 <= total as int,
            1 <= n,
            q == total as int / n,
            r == total as int % n,
    ;
    assert((n - 1) * q >= 0) by (nonlinear_arith)
        requires
            1 <= n,
            0 <= q,
    ;
    assert(n * q == (n - 1) * q + q) by (nonlinear_arith);
}

/// Installment `k` derived from a creation command: the shared fields come
/// from the command, the due date is the anchor advanced by `k` months,
/// the value is the k-th share, and the row starts a fresh Pending life.
/// A plan of more than one installment tags each row with the first row's
/// identity as the shared group and a one-based sequence number; a single
/// row carries no markers.
pub open spec fn installment_row(cmd: CreateTransaction, ids: Seq<u128>, k: int, now: i64) -> Transaction {
    Transaction {
        transaction_id: ids[k],
        movement_type: cmd.movement_type,
        description: cmd.description,
        value: spec_installment_value(cmd.value, cmd.installments as int, k) as i64,
        due_date: spec_add_months(cmd.due_date, k),
        category: cmd.category,
        account_id: cmd.account_id,
        status: TransactionStatus::Pending,
        installment_group: if cmd.installments == 1 {
            None
        } else {
            Some(ids[0])
        },
        installment_number: if cmd.installments == 1 {
            None
        } else {
            Some((k + 1) as i16)
        },
        created_at: now,
        updated_at: None,
        deleted_at: None,
    }
}

/// The full set of rows one creation command expands to, one per id, in
/// installment order.
pub open spec fn created_rows(cmd: CreateTransaction, ids: Seq<u128>, now: i64) -> Seq<Transaction> {
    Seq::new(ids.len(), |k: int| installment_row(cmd, ids, k, now))
}

/// The summed value of a set of rows, in cents.
pub open spec fn sum_values(rows: Seq<Transaction>) -> int
    decreases rows.len(),
{
    if rows.len() == 0 {
        0
    } else {
        sum_values(rows.drop_last()) + rows.last().value
    }
}

proof fn lemma_sum_shares(cmd: CreateTransaction, ids: Seq<u128>, now: i64, j: int)
    requires
        cmd.wf(),
        ids.len() == cmd.installments as int,
        1 <= j <= ids.len(),
    ensures
        sum_values(created_rows(cmd, ids, now).take(j)) == cmd.value as int / (
        cmd.installments as int) + cmd.value as int % (cmd.installments as int) + (j - 1) * (
        cmd.value as int / (cmd.installments as int)),
    decreases j,
{
    let n = cmd.installments as int;
    let q = cmd.value as int / n;
    let r = cmd.value as int % n;
    let rows = created_rows(cmd, ids, now);
    lemma_share_bounds(cmd.value, n);
    if j == 1 {
        assert(rows.take(1).drop_last() =~= Seq::<Transaction>::empty());
        assert(rows.take(1).last() == rows[0]);
        assert(sum_values(rows.take(1)) == sum_values(Seq::<Transaction>::empty()) + rows[0].value);
        assert(rows[0] == installment_row(cmd, ids, 0, now));
        assert(rows[0].value as int == spec_installment_value(cmd.value, n, 0));
        assert((j - 1) * q == 0) by (nonlinear_arith)
            requires
                j == 1,
        ;
        assert(sum_values(rows.take(j)) == q + r + (j - 1) * q);
    } else {
        lemma_sum_shares(cmd, ids, now, j - 1);
        assert(rows.take(j).drop_last() =~= rows.take(j - 1));
        assert(rows.take(j).last() == rows[j - 1]);
        assert(sum_values(rows.take(j)) == sum_values(rows.take(j - 1)) + rows[j - 1].value);
        assert(rows[j - 1] == installment_row(cmd, ids, j - 1, now));
        assert(rows[j - 1].value as int == spec_installment_value(cmd.value, n, j - 1));
        assert((j - 2) * q + q == (j - 1) * q) by (nonlinear_arith);
        assert(sum_values(rows.take(j)) == q + r + (j - 1) * q);
    }
}

/// No rounding drift: the values of the rows a creation command expands to
/// sum exactly to the command's total value.
pub proof fn lemma_created_rows_sum(cmd: CreateTransaction, ids: Seq<u128>, now: i64)
    requires
        cmd.wf(),
        ids.len() == cmd.installments as int,
    ensures
        sum_values(created_rows(cmd, ids, now)) == cmd.value,
{
    let n = cmd.installments as int;
    let q = cmd.value as int / n;
    let r = cmd.value as int % n;
    let rows = created_rows(cmd, ids, now);
    lemma_sum_shares(cmd, ids, now, n);
    assert(rows.take(n) =~= rows);
    lemma_fundamental_div_mod(cmd.value as int, n);
    assert((n - 1) * q + q == n * q) by (nonlinear_arith);
}

/// The k-th share of the total, computed exactly as the specification
/// states it.
pub fn installment_value(total: i64, n: i16, k: usize) -> (r: i64)
    requires
        0 <= total,
        1 <= n,
    ensures
        r as int == spec_installment_value(total, n as int, k as int),
{
    proof {
        lemma_share_bounds(total, n as int);
    }
    let tu = total as u64;
    let nu = n as u64;
    let q = tu / nu;
    let rem = tu % nu;
    if k == 0 {
        (q + rem) as i64
    } else {
        q as i64
    }
}

/// The rows a creation command expands to: `n` Pending rows sharing the
/// command's fields, dated one month apart with end-of-month clamping, the
/// value split into shares that sum exactly to the total.
pub fn expand_installments(cmd: &CreateTransaction, ids: &Vec<u128>, now: i64) -> (r: Vec<
    Transaction,
>)
    requires
        cmd.wf(),
        ids@.len() == cmd.installments as int,
    ensures
        r@ == created_rows(*cmd, ids@, now),
{
    let n: usize = cmd.installments as usize;
    let mut r: Vec<Transaction> = Vec::new();
    let mut k: usize = 0;
    while k < n
        invariant
            cmd.wf(),
            ids@.len() == cmd.installments as int,
            n == cmd.installments as int,
            k <= n,
            r@ == created_rows(*cmd, ids@, now).take(k as int),
        decreases n - k,
    {
        let value = installment_value(cmd.value, cmd.installments, k);
        let due_date = add_months(cmd.due_date, k as u32);
        let row = Transaction {
            transaction_id: ids[k],
            movement_type: cmd.movement_type,
            description: cmd.description.clone(),
            value,
            due_date,
            category: cmd.category,
            account_id: cmd.account_id,
            status: TransactionStatus::Pending,
            installment_group: if cmd.installments == 1 {
                None
            } else {
                Some(ids[0])
            },
            installment_number: if cmd.installments == 1 {
                None
            } else {
                Some((k + 1) as i16)
            },
            created_at: now,
            updated_at: None,
            deleted_at: None,
        };
        proof {
            lemma_share_bounds(cmd.value, cmd.installments as int);
            assert(row == installment_row(*cmd, ids@, k as int, now));
            assert(created_rows(*cmd, ids@, now).take(k + 1) =~= created_rows(
                *cmd,
                ids@,
                now,
            ).take(k as int).push(created_rows(*cmd, ids@, now)[k as int]));
        }
        r.push(row);
        k += 1;
    }
    proof {
        assert(created_rows(*cmd, ids@, now).take(n as int) =~= created_rows(*cmd, ids@, now));
    }
    r
}

} // verus!

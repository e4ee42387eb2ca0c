use vstd::prelude::*;

use crate::dates::valid_date;
use crate::domain::{Category, Frequency, MonthReference, Transaction};
use crate::store::{has_row, in_period, row_index, TransactionRepository};

verus! {

/// A recurrence template: while active, it may spawn one ledger entry per
/// period. `amount` is a signed count of cents; `reference` is the
/// day-of-month anchor of each occurrence.
#[derive(Debug, Clone)]
pub struct RecurrenceTransaction {
    pub recurrence_transaction_id: u128,
    pub account_id: u128,
    pub description: String,
    pub amount: i64,
    pub frequency: Frequency,
    pub reference: i32,
    pub category: Category,
    pub is_active: bool,
    pub start_date: crate::dates::Date,
    pub created_at: i64,
    pub updated_at: Option<i64>,
    pub deleted_at: Option<i64>,
}

/// The link recording that a recurrence produced a transaction. Its
/// lifetime is independent of the transaction it points to.
#[derive(Debug, Clone, Copy, PartialEq, Eq, Structural)]
pub struct GeneratedTransaction {
    pub id: i32,
    pub recurrence_transaction_id: u128,
    pub transaction_id: u128,
    pub created_at: i64,
    pub deleted_at: Option<i64>,
}

/// A command creating a recurrence template, validated at the caller layer.
#[derive(Debug, Clone)]
pub struct CreateRecurrenceTransaction {
    pub account_id: u128,
    pub description: String,
    pub amount: i64,
    pub frequency: Frequency,
    pub reference: i32,
    pub category: Category,
    pub start_date: crate::dates::Date,
}

impl CreateRecurrenceTransaction {
    /// A well-shaped command: a day-of-month anchor and a real start date.
    pub open spec fn wf(&self) -> bool {
        &&& 1 <= self.reference <= 31
        &&& valid_date(self.start_date)
    }
}

impl RecurrenceTransaction {
    /// A well-shaped template row: its anchor names a day of month.
    pub open spec fn wf(&self) -> bool {
        1 <= self.reference <= 31
    }

    /// An exact copy of the template.
    pub fn duplicate(&self) -> (r: Self)
        ensures
            r == *self,
    {
        RecurrenceTransaction {
            recurrence_transaction_id: self.recurrence_transaction_id,
            account_id: self.account_id,
            description: self.description.clone(),
            amount: self.amount,
            frequency: self.frequency,
            reference: self.reference,
            category: self.category,
            is_active: self.is_active,
            start_date: self.start_date,
            created_at: self.created_at,
            updated_at: self.updated_at,
            deleted_at: self.deleted_at,
        }
    }
}

pub open spec fn rec_with_id(recs: Seq<RecurrenceTransaction>, id: u128, i: int) -> bool {
    0 <= i < recs.len() && recs[i].recurrence_transaction_id == id
}

/// Some template row, deleted or not, carries this id.
pub open spec fn has_rec(recs: Seq<RecurrenceTransaction>, id: u128) -> bool {
    exists|i: int| rec_with_id(recs, id, i)
}

pub open spec fn rec_index(recs: Seq<RecurrenceTransaction>, id: u128) -> int {
    choose|i: int| rec_with_id(recs, id, i)
}

pub open spec fn rec_distinct_ids(recs: Seq<RecurrenceTransaction>) -> bool {
    forall|i: int, j: int|
        0 <= i < j < recs.len() ==> recs[i].recurrence_transaction_id
            != recs[j].recurrence_transaction_id
}

/// Every stored template row is well shaped.
pub open spec fn all_recs_wf(recs: Seq<RecurrenceTransaction>) -> bool {
    forall|i: int| 0 <= i < recs.len() ==> recs[i].wf()
}

/// With distinct ids, any position holding the id is the position of the id.
pub proof fn lemma_rec_index_unique(recs: Seq<RecurrenceTransaction>, id: u128, i: int)
    requires
        rec_distinct_ids(recs),
        rec_with_id(recs, id, i),
    ensures
        rec_index(recs, id) == i,
{
    let j = rec_index(recs, id);
    assert(rec_with_id(recs, id, j));
}

proof fn lemma_rec_push_preserves_distinct(recs: Seq<RecurrenceTransaction>, t: RecurrenceTransaction)
    requires
        rec_distinct_ids(recs),
        !has_rec(recs, t.recurrence_transaction_id),
    ensures
        rec_distinct_ids(recs.push(t)),
{
    assert forall|i: int, j: int| 0 <= i < j < recs.len() + 1 implies recs.push(t)[i]
        .recurrence_transaction_id != recs.push(t)[j].recurrence_transaction_id by {
        if j == recs.len() {
            assert(!rec_with_id(recs, t.recurrence_transaction_id, i));
        }
    }
}

/// The link records that this recurrence produced a transaction due in the
/// period: the link is not marked deleted, and the ledger row it points to
/// falls due in the given month and year.
pub open spec fn link_matches(
    rows: Seq<Transaction>,
    l: GeneratedTransaction,
    rid: u128,
    month: MonthReference,
    year: i32,
) -> bool {
    &&& l.deleted_at is None
    &&& l.recurrence_transaction_id == rid
    &&& has_row(rows, l.transaction_id)
    &&& in_period(rows[row_index(rows, l.transaction_id)].due_date, month, year)
}

/// The recurrence already produced an entry for this period.
pub open spec fn already_generated(
    rows: Seq<Transaction>,
    links: Seq<GeneratedTransaction>,
    rid: u128,
    month: MonthReference,
    year: i32,
) -> bool {
    exists|i: int| 0 <= i < links.len() && link_matches(rows, links[i], rid, month, year)
}

/// The links that are not marked deleted, in insertion order.
pub open spec fn visible_links(links: Seq<GeneratedTransaction>) -> Seq<GeneratedTransaction>
    decreases links.len(),
{
    if links.len() == 0 {
        Seq::empty()
    } else {
        let rest = visible_links(links.drop_last());
        if links.last().deleted_at is None {
            rest.push(links.last())
        } else {
            rest
        }
    }
}

proof fn lemma_visible_links_push(links: Seq<GeneratedTransaction>, l: GeneratedTransaction)
    ensures
        visible_links(links.push(l)) == if l.deleted_at is None {
            visible_links(links).push(l)
        } else {
            visible_links(links)
        },
{
    assert(links.push(l).drop_last() =~= links);
    assert(links.push(l).last() == l);
}

/// The in-memory store of recurrence templates and of the links recording
/// what they generated. Link identities are assigned from a counter, one
/// per link, in creation order.
pub struct RecurrenceRepository {
    recurrences: Vec<RecurrenceTransaction>,
    links: Vec<GeneratedTransaction>,
    next_link_id: i32,
}

impl RecurrenceRepository {
    /// The stored template rows, deleted or not, in insertion order.
    pub closed spec fn recs(&self) -> Seq<RecurrenceTransaction> {
        self.recurrences@
    }

    /// The stored link rows, deleted or not, in insertion order.
    pub closed spec fn link_rows(&self) -> Seq<GeneratedTransaction> {
        self.links@
    }

    /// The identity the next link will receive.
    pub closed spec fn counter(&self) -> i32 {
        self.next_link_id
    }

    /// An empty store.
    pub fn new() -> (r: Self)
        ensures
            r.recs() == Seq::<RecurrenceTransaction>::empty(),
            r.link_rows() == Seq::<GeneratedTransaction>::empty(),
            r.counter() == 0,
    {
        RecurrenceRepository { recurrences: Vec::new(), links: Vec::new(), next_link_id: 0 }
    }

    /// Inserts the template row when its id is fresh; reports a duplicate id
    /// as `false` and leaves the store unchanged.
    pub fn create_recurrence_transaction(&mut self, t: RecurrenceTransaction) -> (r: bool)
        requires
            rec_distinct_ids(old(self).recs()),
        ensures
            rec_distinct_ids(final(self).recs()),
            r == !has_rec(old(self).recs(), t.recurrence_transaction_id),
            r ==> final(self).recs() == old(self).recs().push(t),
            !r ==> final(self).recs() == old(self).recs(),
            final(self).link_rows() == old(self).link_rows(),
            final(self).counter() == old(self).counter(),
    {
        let mut i: usize = 0;
        while i < self.recurrences.len()
            invariant
                rec_distinct_ids(self.recs()),
                i <= self.recurrences@.len(),
                forall|j: int|
                    0 <= j < i ==> self.recurrences@[j].recurrence_transaction_id
                        != t.recurrence_transaction_id,
                self.recurrences@ == old(self).recs(),
                self.links@ == old(self).link_rows(),
                self.next_link_id == old(self).counter(),
            decreases self.recurrences@.len() - i,
        {
            if self.recurrences[i].recurrence_transaction_id == t.recurrence_transaction_id {
                proof {
                    assert(rec_with_id(self.recs(), t.recurrence_transaction_id, i as int));
                }
                return false;
            }
            i += 1;
        }
        proof {
            assert forall|j: int| !rec_with_id(self.recs(), t.recurrence_transaction_id, j) by {}
            lemma_rec_push_preserves_distinct(self.recs(), t);
        }
        self.recurrences.push(t);
        true
    }

    /// The template row carrying the id, deleted or not.
    pub fn find_recurrence(&self, recurrence_transaction_id: u128) -> (r: Option<
        RecurrenceTransaction,
    >)
        requires
            rec_distinct_ids(self.recs()),
        ensures
            match r {
                Some(t) => has_rec(self.recs(), recurrence_transaction_id) && t == self.recs()[
                    rec_index(self.recs(), recurrence_transaction_id)
                ],
                None => !has_rec(self.recs(), recurrence_transaction_id),
            },
    {
        let mut i: usize = 0;
        while i < self.recurrences.len()
            invariant
                rec_distinct_ids(self.recs()),
                i <= self.recurrences@.len(),
                forall|j: int|
                    0 <= j < i ==> self.recurrences@[j].recurrence_transaction_id
                        != recurrence_transaction_id,
            decreases self.recurrences@.len() - i,
        {
            if self.recurrences[i].recurrence_transaction_id == recurrence_transaction_id {
                proof {
                    assert(rec_with_id(self.recs(), recurrence_transaction_id, i as int));
                    lemma_rec_index_unique(self.recs(), recurrence_transaction_id, i as int);
                }
                let found = self.recurrences[i].duplicate();
                proof {
                    assert(found == self.recs()[rec_index(self.recs(), recurrence_transaction_id)]);
                }
                return Some(found);
            }
            i += 1;
        }
        proof {
            assert forall|j: int| !rec_with_id(self.recs(), recurrence_transaction_id, j) by {}
        }
        None
    }

    /// The links that are not marked deleted, in insertion order.
    pub fn list_generated_transactions(&self) -> (r: Vec<GeneratedTransaction>)
        ensures
            r@ == visible_links(self.link_rows()),
    {
        let mut r: Vec<GeneratedTransaction> = Vec::new();
        let mut i: usize = 0;
        while i < self.links.len()
            invariant
                i <= self.links@.len(),
                r@ == visible_links(self.links@.take(i as int)),
            decreases self.links@.len() - i,
        {
            proof {
                assert(self.links@.take(i + 1) =~= self.links@.take(i as int).push(
                    self.links@[i as int],
                ));
                lemma_visible_links_push(self.links@.take(i as int), self.links@[i as int]);
            }
            let l = self.links[i];
            if l.deleted_at.is_none() {
                r.push(l);
            }
            i += 1;
        }
        proof {
            assert(self.links@.take(self.links@.len() as int) =~= self.links@);
        }
        r
    }

    /// Whether some link already records an entry of this recurrence due in
    /// the period, judged against the given ledger.
    pub fn find_period_link(
        &self,
        ledger: &TransactionRepository,
        recurrence_transaction_id: u128,
        month: MonthReference,
        year: i32,
    ) -> (r: bool)
        requires
            crate::store::distinct_ids(ledger@),
        ensures
            r == already_generated(
                ledger@,
                self.link_rows(),
                recurrence_transaction_id,
                month,
                year,
            ),
    {
        let m = crate::domain::month_number(month);
        let mut i: usize = 0;
        while i < self.links.len()
            invariant
                crate::store::distinct_ids(ledger@),
                i <= self.links@.len(),
                m == crate::domain::spec_month_number(month),
                forall|j: int|
                    0 <= j < i ==> !link_matches(
                        ledger@,
                        self.links@[j],
                        recurrence_transaction_id,
                        month,
                        year,
                    ),
            decreases self.links@.len() - i,
        {
            let l = self.links[i];
            if l.deleted_at.is_none() && l.recurrence_transaction_id == recurrence_transaction_id {
                match ledger.find_row(l.transaction_id) {
                    Some(t) => {
                        if t.due_date.month == m && t.due_date.year == year {
                            proof {
                                assert(link_matches(
                                    ledger@,
                                    self.links@[i as int],
                                    recurrence_transaction_id,
                                    month,
                                    year,
                                ));
                            }
                            return true;
                        }
                    },
                    None => {},
                }
            }
            i += 1;
        }
        false
    }

    /// Appends the link recording that the recurrence produced the
    /// transaction, under the next link identity.
    pub fn create_link(
        &mut self,
        recurrence_transaction_id: u128,
        transaction_id: u128,
        now: i64,
    ) -> (l: GeneratedTransaction)
        requires
            old(self).counter() < i32::MAX,
        ensures
            l == (GeneratedTransaction {
                id: old(self).counter(),
                recurrence_transaction_id,
                transaction_id,
                created_at: now,
                deleted_at: None,
            }),
            final(self).link_rows() == old(self).link_rows().push(l),
            final(self).recs() == old(self).recs(),
            final(self).counter() == old(self).counter() + 1,
    {
        let l = GeneratedTransaction {
            id: self.next_link_id,
            recurrence_transaction_id,
            transaction_id,
            created_at: now,
            deleted_at: None,
        };
        self.links.push(l);
        self.next_link_id = self.next_link_id + 1;
        l
    }
}

} // verus!

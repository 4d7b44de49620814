//! The transactions that were submitted, and which session submitted which.

use vstd::prelude::*;
use crate::models::transaction::Transaction;
use crate::outside::same_text;
use crate::utils::lookup::{contains_text, distinct, first, lemma_first, lemma_first_is};
use crate::utils::ranking::{is_ranking, rank};

verus! {

/// The transactions of one session, by their identifiers, in the order they
/// were added.
#[derive(Debug, PartialEq, Eq)]
pub struct SessionTransactions {
    pub session_id: String,
    pub transaction_ids: Vec<String>,
}

/// The identifiers of a sequence of transactions.
pub open spec fn transaction_ids(transactions: Seq<Transaction>) -> Seq<Seq<char>> {
    transactions.map_values(|transaction: Transaction| transaction.id@)
}

/// The session names of a sequence of session lists.
pub open spec fn session_names(sessions: Seq<SessionTransactions>) -> Seq<Seq<char>> {
    sessions.map_values(|session: SessionTransactions| session.session_id@)
}

/// The texts of a sequence of identifiers.
pub open spec fn texts(ids: Seq<String>) -> Seq<Seq<char>> {
    ids.map_values(|id: String| id@)
}

/// The transactions with `transaction` stored under its identifier: it
/// takes the place of the one that had the identifier, or goes to the end.
pub open spec fn with_stored(transactions: Seq<Transaction>, transaction: Transaction) -> Seq<
    Transaction,
> {
    let index = first(transaction_ids(transactions), transaction.id@);
    if index < transactions.len() {
        transactions.update(index, transaction)
    } else {
        transactions.push(transaction)
    }
}

/// The transaction stored under `id`, if there is one.
pub open spec fn stored(transactions: Seq<Transaction>, id: Seq<char>) -> Option<Transaction> {
    let index = first(transaction_ids(transactions), id);
    if index < transactions.len() {
        Some(transactions[index])
    } else {
        None
    }
}

/// The identifiers listed for `session_id`, in the order they were added.
pub open spec fn listed(sessions: Seq<SessionTransactions>, session_id: Seq<char>) -> Seq<Seq<char>> {
    let index = first(session_names(sessions), session_id);
    if index < sessions.len() {
        texts(sessions[index].transaction_ids@)
    } else {
        Seq::empty()
    }
}

/// Those of the identifiers `ids` from `from` up to `to` under which a
/// transaction is stored, each replaced by that transaction.
pub open spec fn lookups(transactions: Seq<Transaction>, ids: Seq<Seq<char>>, from: int, to: int) -> Seq<
    Transaction,
>
    decreases to - from,
{
    if to <= from || to > ids.len() || from < 0 {
        Seq::empty()
    } else {
        let before = lookups(transactions, ids, from, to - 1);
        match stored(transactions, ids[to - 1]) {
            Some(transaction) => before.push(transaction),
            None => before,
        }
    }
}

/// The end of the page that starts at `offset` and holds `limit` entries of
/// `length`.
pub open spec fn page_end(length: int, offset: int, limit: int) -> int {
    if offset >= length {
        length
    } else if offset + limit >= length {
        length
    } else {
        offset + limit
    }
}

/// The score of a time: the later, the greater.
pub open spec fn time_score(time: i64) -> u64 {
    (time - i64::MIN) as u64
}

/// The score of each transaction by the time it was created at.
pub open spec fn time_scores(transactions: Seq<Transaction>) -> Seq<(u64, u64)> {
    Seq::new(transactions.len(), |i: int| (time_score(transactions[i].created_at), 1u64))
}

/// Whether `page` holds the transactions at the places of `order` from
/// `offset` on, `limit` places far.
pub open spec fn is_page(
    page: Seq<Transaction>,
    transactions: Seq<Transaction>,
    order: Seq<usize>,
    offset: int,
    limit: int,
) -> bool {
    &&& page.len() == page_end(order.len() as int, offset, limit) - if offset < order.len() {
        offset
    } else {
        order.len() as int
    }
    &&& forall|n: int|
        0 <= n < page.len() ==> #[trigger] page[n] == transactions[order[offset + n] as int]
}

/// Whether `page` is the page from `offset` on, `limit` places far, of the
/// transactions ranked from the newest to the oldest.
pub open spec fn is_page_of_newest(
    page: Seq<Transaction>,
    transactions: Seq<Transaction>,
    offset: int,
    limit: int,
) -> bool {
    exists|order: Seq<usize>|
        #[trigger] is_ranking(order, time_scores(transactions)) && is_page(
            page,
            transactions,
            order,
            offset,
            limit,
        )
}

/// The transactions by identifier, and the identifiers by session.
#[derive(Debug)]
pub struct TransactionLedger {
    pub transactions: Vec<Transaction>,
    pub session_transactions: Vec<SessionTransactions>,
}

impl TransactionLedger {
    /// No two transactions share an identifier, and no two lists a session.
    pub open spec fn wf(&self) -> bool {
        &&& distinct(transaction_ids(self.transactions@))
        &&& distinct(session_names(self.session_transactions@))
    }

    /// The transactions listed for `session_id` that are stored, in the
    /// order they were added.
    pub open spec fn of_session(&self, session_id: Seq<char>) -> Seq<Transaction> {
        let ids = listed(self.session_transactions@, session_id);
        lookups(self.transactions@, ids, 0, ids.len() as int)
    }

    /// An empty ledger.
    pub fn new() -> (ledger: Self)
        ensures
            ledger.transactions@ == Seq::<Transaction>::empty(),
            ledger.session_transactions@ == Seq::<SessionTransactions>::empty(),
            ledger.wf(),
    {
        TransactionLedger { transactions: Vec::new(), session_transactions: Vec::new() }
    }

    /// Index of the transaction stored under `id`, if there is one.
    pub fn find(&self, id: &str) -> (found: Option<usize>)
        ensures
            match found {
                Some(index) => index == first(transaction_ids(self.transactions@), id@) && index
                    < self.transactions@.len(),
                None => !contains_text(transaction_ids(self.transactions@), id@),
            },
    {
        let mut i: usize = 0;
        let ghost keys = transaction_ids(self.transactions@);
        while i < self.transactions.len()
            invariant
                i <= self.transactions.len(),
                keys == transaction_ids(self.transactions@),
                forall|n: int| 0 <= n < i ==> #[trigger] keys[n] != id@,
            decreases self.transactions.len() - i,
        {
            if same_text(self.transactions[i].id.as_str(), id) {
                proof {
                    lemma_first_is(keys, id@, i as int);
                }
                return Some(i);
            }
            i += 1;
        }
        proof {
            lemma_first_is(keys, id@, i as int);
        }
        None
    }

    /// Index of the list of `session_id`, if there is one.
    pub fn find_session(&self, session_id: &str) -> (found: Option<usize>)
        ensures
            match found {
                Some(index) => index == first(
                    session_names(self.session_transactions@),
                    session_id@,
                ) && index < self.session_transactions@.len(),
                None => !contains_text(session_names(self.session_transactions@), session_id@),
            },
    {
        let mut i: usize = 0;
        let ghost keys = session_names(self.session_transactions@);
        while i < self.session_transactions.len()
            invariant
                i <= self.session_transactions.len(),
                keys == session_names(self.session_transactions@),
                forall|n: int| 0 <= n < i ==> #[trigger] keys[n] != session_id@,
            decreases self.session_transactions.len() - i,
        {
            if same_text(self.session_transactions[i].session_id.as_str(), session_id) {
                proof {
                    lemma_first_is(keys, session_id@, i as int);
                }
                return Some(i);
            }
            i += 1;
        }
        proof {
            lemma_first_is(keys, session_id@, i as int);
        }
        None
    }

    /// Stores `transaction` under its identifier.
    pub fn store(&mut self, transaction: Transaction)
        ensures
            final(self).transactions@ == with_stored(old(self).transactions@, transaction),
            final(self).session_transactions@ == old(self).session_transactions@,
            old(self).wf() ==> final(self).wf(),
    {
        let ghost keys = transaction_ids(self.transactions@);
        proof {
            lemma_first(keys, transaction.id@);
        }
        match self.find(transaction.id.as_str()) {
            Some(index) => {
                self.transactions[index] = transaction;
                assert(transaction_ids(self.transactions@) =~= keys);
            },
            None => {
                self.transactions.push(transaction);
                assert(transaction_ids(self.transactions@) =~= keys.push(transaction.id@));
            },
        }
    }

    /// Stores `transaction` and lists it for `session_id`.
    pub fn add(&mut self, session_id: String, transaction: Transaction)
        ensures
            final(self).transactions@ == with_stored(old(self).transactions@, transaction),
            listed(final(self).session_transactions@, session_id@) == listed(
                old(self).session_transactions@,
                session_id@,
            ).push(transaction.id@),
            forall|other: Seq<char>|
                other != session_id@ ==> listed(final(self).session_transactions@, other) == listed(
                    old(self).session_transactions@,
                    other,
                ),
            old(self).wf() ==> final(self).wf(),
    {
        let id = transaction.id.clone();
        self.store(transaction);
        let ghost names = session_names(self.session_transactions@);
        let ghost held = self.session_transactions@;
        proof {
            lemma_first(names, session_id@);
        }
        match self.find_session(session_id.as_str()) {
            Some(index) => {
                let ghost ids = self.session_transactions@[index as int].transaction_ids@;
                let list = &mut self.session_transactions[index];
                list.transaction_ids.push(id);
                assert(session_names(self.session_transactions@) =~= names);
                assert(texts(ids.push(id)) =~= texts(ids).push(id@));
                assert forall|other: Seq<char>| other != session_id@ implies listed(
                    self.session_transactions@,
                    other,
                ) == listed(held, other) by {
                    lemma_first(names, other);
                }
            },
            None => {
                let mut ids: Vec<String> = Vec::new();
                ids.push(id);
                let list = SessionTransactions { session_id, transaction_ids: ids };
                self.session_transactions.push(list);
                let ghost longer = names.push(session_id@);
                assert(session_names(self.session_transactions@) =~= longer);
                assert(texts(ids@) =~= Seq::<Seq<char>>::empty().push(id@));
                proof {
                    lemma_first_is(longer, session_id@, names.len() as int);
                }
                assert forall|other: Seq<char>| other != session_id@ implies listed(
                    self.session_transactions@,
                    other,
                ) == listed(held, other) by {
                    lemma_first(names, other);
                    let at = first(names, other);
                    if at < names.len() {
                        lemma_first_is(longer, other, at);
                    } else {
                        lemma_first_is(longer, other, longer.len() as int);
                    }
                }
            },
        }
    }

    /// The transaction stored under `id`, if there is one.
    pub fn get(&self, id: &str) -> (transaction: Option<Transaction>)
        ensures
            transaction == stored(self.transactions@, id@),
    {
        match self.find(id) {
            Some(index) => Some(self.transactions[index].clone()),
            None => None,
        }
    }

    /// The stored transactions among those listed for `session_id` from
    /// place `offset` on, `limit` places far.
    pub fn of_session_paginated(&self, session_id: &str, offset: u64, limit: u32) -> (page: Vec<
        Transaction,
    >)
        ensures
            page@ == lookups(
                self.transactions@,
                listed(self.session_transactions@, session_id@),
                offset as int,
                page_end(
                    listed(self.session_transactions@, session_id@).len() as int,
                    offset as int,
                    limit as int,
                ),
            ),
    {
        let mut page: Vec<Transaction> = Vec::new();
        let ghost ids = listed(self.session_transactions@, session_id@);
        match self.find_session(session_id) {
            Some(index) => {
                let list = &self.session_transactions[index].transaction_ids;
                assert(texts(list@) == ids);
                let length = list.len();
                if offset < length as u64 {
                    let start = offset as usize;
                    let end = if limit as usize >= length - start {
                        length
                    } else {
                        start + limit as usize
                    };
                    let mut i: usize = start;
                    while i < end
                        invariant
                            start <= i <= end <= length,
                            length == list@.len(),
                            texts(list@) == ids,
                            page@ == lookups(self.transactions@, ids, start as int, i as int),
                        decreases end - i,
                    {
                        assert(ids[i as int] == list@[i as int]@);
                        match self.get(list[i].as_str()) {
                            Some(transaction) => {
                                page.push(transaction);
                            },
                            None => {},
                        }
                        i += 1;
                    }
                }
            },
            None => {},
        }
        page
    }

    /// The stored transactions among those listed for `session_id`.
    pub fn of_session_all(&self, session_id: &str) -> (all: Vec<Transaction>)
        ensures
            all@ == self.of_session(session_id@),
    {
        let mut all: Vec<Transaction> = Vec::new();
        let ghost ids = listed(self.session_transactions@, session_id@);
        match self.find_session(session_id) {
            Some(index) => {
                let list = &self.session_transactions[index].transaction_ids;
                assert(texts(list@) == ids);
                let mut i: usize = 0;
                while i < list.len()
                    invariant
                        i <= list.len(),
                        texts(list@) == ids,
                        all@ == lookups(self.transactions@, ids, 0, i as int),
                    decreases list.len() - i,
                {
                    assert(ids[i as int] == list@[i as int]@);
                    match self.get(list[i].as_str()) {
                        Some(transaction) => {
                            all.push(transaction);
                        },
                        None => {},
                    }
                    i += 1;
                }
            },
            None => {},
        }
        all
    }

    /// The transactions from place `offset` on, `limit` places far, of all
    /// the transactions ranked from the newest to the oldest. Transactions
    /// of the same time stand in the order in which they were stored.
    pub fn all_paginated(&self, offset: u64, limit: u32) -> (page: Vec<Transaction>)
        ensures
            is_page_of_newest(page@, self.transactions@, offset as int, limit as int),
    {
        let mut scores: Vec<(u64, u64)> = Vec::new();
        let mut i: usize = 0;
        while i < self.transactions.len()
            invariant
                i <= self.transactions.len(),
                scores@ == time_scores(self.transactions@.take(i as int)),
            decreases self.transactions.len() - i,
        {
            let created_at = self.transactions[i].created_at;
            let score = ((created_at as i128) + 0x8000_0000_0000_0000i128) as u64;
            scores.push((score, 1));
            assert(self.transactions@.take(i + 1)[i as int] == self.transactions@[i as int]);
            assert(scores@ =~= time_scores(self.transactions@.take(i + 1)));
            i += 1;
        }
        assert(self.transactions@.take(i as int) == self.transactions@);
        let order = rank(&scores);
        let mut page: Vec<Transaction> = Vec::new();
        let length = order.len();
        if offset < length as u64 {
            let start = offset as usize;
            let end = if limit as usize >= length - start {
                length
            } else {
                start + limit as usize
            };
            let mut k: usize = start;
            while k < end
                invariant
                    start <= k <= end <= length,
                    length == order@.len(),
                    is_ranking(order@, time_scores(self.transactions@)),
                    page@.len() == k - start,
                    forall|n: int|
                        0 <= n < k - start ==> #[trigger] page@[n] == self.transactions@[order@[start
                            + n] as int],
                decreases end - k,
            {
                assert(order@[k as int] < self.transactions@.len());
                page.push(self.transactions[order[k]].clone());
                k += 1;
            }
        }
        assert(is_page(page@, self.transactions@, order@, offset as int, limit as int));
        page
    }

    /// Number of identifiers listed for `session_id`.
    pub fn session_count(&self, session_id: &str) -> (count: usize)
        ensures
            count == listed(self.session_transactions@, session_id@).len(),
    {
        match self.find_session(session_id) {
            Some(index) => self.session_transactions[index].transaction_ids.len(),
            None => 0,
        }
    }

    /// Number of stored transactions.
    pub fn total_count(&self) -> (count: usize)
        ensures
            count == self.transactions@.len(),
    {
        self.transactions.len()
    }
}

} // verus!

//! What each loser of an auction gets back.

use vstd::prelude::*;
use crate::models::auction::total;
use crate::outside::same_text;
use crate::utils::lookup::{contains_text, distinct, first, lemma_first, lemma_first_is};

verus! {

/// The bidders of a sequence of refunds.
pub open spec fn refund_names(refunds: Seq<(String, u128)>) -> Seq<Seq<char>> {
    refunds.map_values(|refund: (String, u128)| refund.0@)
}

/// The sum of the amounts of `refunds`.
pub open spec fn refund_sum(refunds: Seq<(String, u128)>) -> nat
    decreases refunds.len(),
{
    if refunds.len() == 0 {
        0
    } else {
        refund_sum(refunds.drop_last()) + refunds.last().1 as nat
    }
}

/// The sum of the amounts that `entries` hold for `bidder`.
pub open spec fn total_of(entries: Seq<(String, u64)>, bidder: Seq<char>) -> nat
    decreases entries.len(),
{
    if entries.len() == 0 {
        0
    } else if entries.last().0@ == bidder {
        total_of(entries.drop_last(), bidder) + entries.last().1 as nat
    } else {
        total_of(entries.drop_last(), bidder)
    }
}

/// Whether `entries` hold an amount for `bidder`.
pub open spec fn names_bidder(entries: Seq<(String, u64)>, bidder: Seq<char>) -> bool {
    exists|i: int| 0 <= i < entries.len() && (#[trigger] entries[i]).0@ == bidder
}

/// Whether `refunds` are the entries `entries` summed by bidder: each
/// bidder of the entries once, with the sum of the bidder's amounts.
pub open spec fn are_refunds_of(refunds: Seq<(String, u128)>, entries: Seq<(String, u64)>) -> bool {
    &&& distinct(refund_names(refunds))
    &&& forall|i: int|
        0 <= i < refunds.len() ==> (#[trigger] refunds[i]).1 == total_of(entries, refunds[i].0@)
            && names_bidder(entries, refunds[i].0@)
    &&& forall|j: int|
        0 <= j < entries.len() ==> contains_text(refund_names(refunds), (#[trigger] entries[j]).0@)
}

/// The sum that entries hold for a bidder is no more than their number
/// times the greatest amount.
proof fn lemma_total_of_bound(entries: Seq<(String, u64)>, bidder: Seq<char>)
    ensures
        total_of(entries, bidder) <= entries.len() * u64::MAX,
    decreases entries.len(),
{
    if entries.len() > 0 {
        lemma_total_of_bound(entries.drop_last(), bidder);
        assert((entries.len() - 1) * u64::MAX + u64::MAX == entries.len() * u64::MAX)
            by (nonlinear_arith);
    }
}

/// Raising one refund raises the sum by as much.
proof fn lemma_refund_sum_update(refunds: Seq<(String, u128)>, index: int, refund: (String, u128))
    requires
        0 <= index < refunds.len(),
    ensures
        refund_sum(refunds.update(index, refund)) == refund_sum(refunds) - refunds[index].1
            + refund.1,
    decreases refunds.len(),
{
    let after = refunds.update(index, refund);
    if index == refunds.len() - 1 {
        assert(after.drop_last() == refunds.drop_last());
    } else {
        assert(after.drop_last() == refunds.drop_last().update(index, refund));
        lemma_refund_sum_update(refunds.drop_last(), index, refund);
    }
}

/// Sums the bids to refund by bidder, in the order in which the bidders
/// first appear. The refunds together are the bids together.
pub fn aggregate_refunds(losers: &Vec<(String, u64)>) -> (refunds: Vec<(String, u128)>)
    ensures
        are_refunds_of(refunds@, losers@),
        refund_sum(refunds@) == total(losers@),
{
    let mut refunds: Vec<(String, u128)> = Vec::new();
    let mut i: usize = 0;
    assert(refund_names(refunds@) =~= Seq::<Seq<char>>::empty());
    while i < losers.len()
        invariant
            i <= losers.len(),
            are_refunds_of(refunds@, losers@.take(i as int)),
            refund_sum(refunds@) == total(losers@.take(i as int)),
        decreases losers.len() - i,
    {
        let ghost seen = losers@.take(i as int);
        let ghost next = losers@.take(i + 1);
        let ghost held = refunds@;
        let ghost names = refund_names(held);
        let bidder = &losers[i].0;
        let amount = losers[i].1;
        proof {
            assert(next.drop_last() == seen);
            assert(next.last() == losers@[i as int]);
            lemma_first(names, bidder@);
        }
        let mut found: Option<usize> = None;
        let mut k: usize = 0;
        while k < refunds.len()
            invariant_except_break
                found is None,
                forall|n: int| 0 <= n < k ==> #[trigger] names[n] != bidder@,
            invariant
                k <= refunds.len(),
                refunds@ == held,
                names == refund_names(held),
            ensures
                refunds@ == held,
                match found {
                    Some(index) => index < held.len() && names[index as int] == bidder@,
                    None => forall|n: int| 0 <= n < held.len() ==> #[trigger] names[n] != bidder@,
                },
            decreases refunds.len() - k,
        {
            if same_text(refunds[k].0.as_str(), bidder.as_str()) {
                found = Some(k);
                break ;
            }
            k += 1;
        }
        match found {
            Some(index) => {
                proof {
                    lemma_total_of_bound(seen, bidder@);
                    assert(held[index as int].1 == total_of(seen, held[index as int].0@));
                    assert(seen.len() * u64::MAX + u64::MAX <= u64::MAX * u64::MAX + u64::MAX)
                        by (nonlinear_arith)
                        requires
                            seen.len() <= u64::MAX,
                    ;
                }
                let sum = refunds[index].1 + amount as u128;
                let name = refunds[index].0.clone();
                refunds[index] = (name, sum);
                proof {
                    lemma_refund_sum_update(held, index as int, (name, sum));
                    assert(refund_names(refunds@) =~= names);
                    assert forall|n: int| 0 <= n < refunds@.len() implies (#[trigger] refunds@[n]).1
                        == total_of(next, refunds@[n].0@) && names_bidder(next, refunds@[n].0@) by {
                        if n == index {
                            assert(next[i as int].0@ == bidder@);
                        } else {
                            assert(refunds@[n] == held[n]);
                            assert(names[n] != names[index as int]);
                            let j = choose|j: int|
                                0 <= j < seen.len() && (#[trigger] seen[j]).0@ == held[n].0@;
                            assert(next[j] == seen[j]);
                        }
                    }
                    assert forall|j: int| 0 <= j < next.len() implies contains_text(
                        refund_names(refunds@),
                        (#[trigger] next[j]).0@,
                    ) by {
                        if j < seen.len() {
                            assert(next[j] == seen[j]);
                        } else {
                            lemma_first(names, bidder@);
                            if first(names, bidder@) >= names.len() {
                                assert(names[index as int] == bidder@);
                            }
                        }
                    }
                }
            },
            None => {
                refunds.push((bidder.clone(), amount as u128));
                proof {
                    let longer = names.push(bidder@);
                    assert(refund_names(refunds@) =~= longer);
                    assert(refunds@.drop_last() == held);
                    assert forall|n: int| 0 <= n < refunds@.len() implies (#[trigger] refunds@[n]).1
                        == total_of(next, refunds@[n].0@) && names_bidder(next, refunds@[n].0@) by {
                        if n < held.len() {
                            assert(refunds@[n] == held[n]);
                            assert(names[n] != bidder@);
                            let j = choose|j: int|
                                0 <= j < seen.len() && (#[trigger] seen[j]).0@ == held[n].0@;
                            assert(next[j] == seen[j]);
                        } else {
                            lemma_absent_total(seen, held, bidder@);
                            assert(next[i as int].0@ == bidder@);
                        }
                    }
                    assert forall|j: int| 0 <= j < next.len() implies contains_text(
                        longer,
                        (#[trigger] next[j]).0@,
                    ) by {
                        if j < seen.len() {
                            assert(next[j] == seen[j]);
                            lemma_first(names, seen[j].0@);
                            lemma_first_is(longer, seen[j].0@, first(names, seen[j].0@));
                        } else {
                            lemma_first_is(longer, bidder@, names.len() as int);
                        }
                    }
                }
            },
        }
        i += 1;
    }
    assert(losers@.take(i as int) == losers@);
    refunds
}

/// A bidder that the refunds do not name has no amount in the entries.
proof fn lemma_absent_total(entries: Seq<(String, u64)>, refunds: Seq<(String, u128)>, bidder: Seq<char>)
    requires
        are_refunds_of(refunds, entries),
        forall|n: int| 0 <= n < refunds.len() ==> #[trigger] refund_names(refunds)[n] != bidder,
    ensures
        total_of(entries, bidder) == 0,
    decreases entries.len(),
{
    if entries.len() > 0 {
        let front = entries.drop_last();
        let last = entries.len() - 1;
        let names = refund_names(refunds);
        lemma_first(names, entries[last].0@);
        assert(contains_text(names, entries[last].0@));
        assert(entries[last].0@ != bidder);
        assert forall|j: int| 0 <= j < entries.len() implies (#[trigger] entries[j]).0@ != bidder by {
            lemma_first(names, entries[j].0@);
            assert(contains_text(names, entries[j].0@));
        }
        lemma_no_entry_total(entries, bidder);
    }
}

/// Entries of which none is the bidder's hold nothing for the bidder.
proof fn lemma_no_entry_total(entries: Seq<(String, u64)>, bidder: Seq<char>)
    requires
        forall|j: int| 0 <= j < entries.len() ==> (#[trigger] entries[j]).0@ != bidder,
    ensures
        total_of(entries, bidder) == 0,
    decreases entries.len(),
{
    if entries.len() > 0 {
        let front = entries.drop_last();
        assert forall|j: int| 0 <= j < front.len() implies (#[trigger] front[j]).0@ != bidder by {
            assert(front[j] == entries[j]);
        }
        lemma_no_entry_total(front, bidder);
        assert(entries.last() == entries[entries.len() - 1]);
    }
}

} // verus!

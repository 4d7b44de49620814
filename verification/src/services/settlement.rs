//! Settling what a tick resolved: the winner of the JIT auction, then the
//! winner and the losers of each AOT auction, one after the other.

use vstd::prelude::*;
use crate::events::AppEvent;
use crate::managers::game::position;
use crate::models::transaction::Transaction;
use crate::models::types::{InclusionType, TransactionType};
use crate::outside::is_clock_reading;
use crate::services::refunds::{aggregate_refunds, are_refunds_of};
use crate::services::transaction::{
    is_loss_settlement, is_win_settlement, outbid_total, settle_loser_if_room, settle_winner,
    waiting_among, WinSettlement,
};
use crate::state::{AotResolution, AppState, TickReport};

verus! {

/// One settlement that follows a tick.
pub enum SettleStep {
    /// The auction on `slot` is settled for its winner.
    Winner {
        session: String,
        slot: u64,
        winning_bid: u64,
        inclusion_type: InclusionType,
        transaction_type: TransactionType,
    },
    /// The auction on `slot` is settled for one of its losers, who gets
    /// `refund` back.
    Loser { session: String, slot: u64, refund: u128, inclusion_type: InclusionType },
}

/// What a loser is paid of a refund: the refund, or nothing if it is more
/// than a balance can hold.
pub open spec fn paid_back(refund: u128) -> u64 {
    if refund <= u64::MAX {
        refund as u64
    } else {
        0
    }
}

impl SettleStep {
    /// The session that the step settles the auction for.
    pub open spec fn session(self) -> String {
        match self {
            SettleStep::Winner { session, .. } => session,
            SettleStep::Loser { session, .. } => session,
        }
    }

    /// Whether the step can be taken from `before`: the session has no
    /// record, or its record has room for the refund and the counts.
    pub open spec fn has_room(self, before: AppState) -> bool {
        let players = before.game.players();
        let index = position(players, self.session()@);
        index < players.len() ==> match self {
            SettleStep::Winner { session, winning_bid, inclusion_type, .. } => players[index as int].has_settlement_room(
                outbid_total(
                    waiting_among(before.ledger.of_session(session@), inclusion_type),
                    winning_bid,
                ),
            ),
            SettleStep::Loser { refund, .. } => players[index as int].has_loss_room(refund as nat),
        }
    }

    /// Whether the step leads from `before` to `after`: where it can be
    /// taken the auction is settled for the session, at some reading of
    /// the clock for a winner, and the changed transactions are
    /// published; where it cannot, the ledger and the players stay as they
    /// are and nothing is published. The marketplace, the auctions and the sessions
    /// stay as they are either way.
    pub open spec fn leads(self, before: AppState, after: AppState) -> bool {
        &&& after.marketplace == before.marketplace
        &&& after.auctions == before.auctions
        &&& after.sessions == before.sessions
        &&& if self.has_room(before) {
            match self {
                SettleStep::Winner { session, slot, winning_bid, inclusion_type, transaction_type } => exists|
                    now: i64,
                    settlement: WinSettlement,
                |
                    is_clock_reading(now) && #[trigger] is_win_settlement(
                        before,
                        after,
                        settlement,
                        session@,
                        slot,
                        winning_bid,
                        inclusion_type,
                        transaction_type,
                        now,
                    ),
                SettleStep::Loser { session, slot, refund, inclusion_type } => exists|
                    result: (Vec<Transaction>, Vec<AppEvent>),
                | #[trigger]
                    is_loss_settlement(
                        before,
                        after,
                        result,
                        session@,
                        slot,
                        paid_back(refund),
                        inclusion_type,
                    ),
            }
        } else {
            after.ledger == before.ledger && after.game == before.game && after.events
                == before.events
        }
    }
}

/// Whether taking `steps` in their order leads from `before` to `after`,
/// and `skipped` are the sessions of the steps that could not be taken, in
/// that order.
pub open spec fn is_settled(
    before: AppState,
    after: AppState,
    steps: Seq<SettleStep>,
    skipped: Seq<String>,
) -> bool
    decreases steps.len(),
{
    if steps.len() == 0 {
        after == before && skipped.len() == 0
    } else {
        exists|mid: AppState|
            {
                &&& #[trigger] steps.last().leads(mid, after)
                &&& if steps.last().has_room(mid) {
                    is_settled(before, mid, steps.drop_last(), skipped)
                } else {
                    &&& skipped.len() > 0
                    &&& skipped.last() == steps.last().session()
                    &&& is_settled(before, mid, steps.drop_last(), skipped.drop_last())
                }
            }
    }
}

/// The step for the winner of the JIT auction of a tick, if it had one.
pub open spec fn jit_steps(report: TickReport) -> Seq<SettleStep> {
    match report.jit_winner {
        Some((winner, winning_bid)) => seq![
            SettleStep::Winner {
                session: winner,
                slot: report.current_slot,
                winning_bid,
                inclusion_type: InclusionType::Jit,
                transaction_type: TransactionType::Jit,
            },
        ],
        None => Seq::empty(),
    }
}

/// The step for the winner of a resolved AOT auction.
pub open spec fn aot_winner_step(auction: AotResolution) -> SettleStep {
    SettleStep::Winner {
        session: auction.1,
        slot: auction.0,
        winning_bid: auction.2,
        inclusion_type: InclusionType::Aot { reserved_slot: auction.0 },
        transaction_type: TransactionType::Aot,
    }
}

/// The steps for the losers of the AOT auction on `slot`, one for each of
/// `refunds`, in their order.
pub open spec fn loser_steps(slot: u64, refunds: Seq<(String, u128)>) -> Seq<SettleStep> {
    refunds.map_values(
        |refund: (String, u128)|
            SettleStep::Loser {
                session: refund.0,
                slot,
                refund: refund.1,
                inclusion_type: InclusionType::Aot { reserved_slot: slot },
            },
    )
}

/// The steps for the resolved AOT auctions, in their order: for each the
/// winner, then the losers with their refunds.
pub open spec fn aot_steps(resolved: Seq<AotResolution>, refunds: Seq<Seq<(String, u128)>>) -> Seq<
    SettleStep,
>
    decreases resolved.len(),
{
    if resolved.len() == 0 || refunds.len() == 0 {
        Seq::empty()
    } else {
        aot_steps(resolved.drop_last(), refunds.drop_last()) + seq![
            aot_winner_step(resolved.last()),
        ] + loser_steps(resolved.last().0, refunds.last())
    }
}

/// Whether `refunds` hold, for each of the resolved auctions in their
/// order, the losing bids of the auction summed by bidder.
pub open spec fn are_tick_refunds(
    refunds: Seq<Seq<(String, u128)>>,
    resolved: Seq<AotResolution>,
) -> bool {
    &&& refunds.len() == resolved.len()
    &&& forall|k: int|
        0 <= k < resolved.len() ==> are_refunds_of(#[trigger] refunds[k], resolved[k].3@)
}

/// What settling for a winner did is a step.
proof fn lemma_winner_leads(
    before: AppState,
    after: AppState,
    step: SettleStep,
    settlement: Option<WinSettlement>,
    now: i64,
)
    requires
        step is Winner,
        after.marketplace == before.marketplace,
        after.auctions == before.auctions,
        after.sessions == before.sessions,
        settlement is Some <==> step.has_room(before),
        settlement is Some ==> is_clock_reading(now) && is_win_settlement(
            before,
            after,
            settlement->0,
            step.session()@,
            step->Winner_slot,
            step->winning_bid,
            step->Winner_inclusion_type,
            step->transaction_type,
            now,
        ),
        settlement is None ==> after.ledger == before.ledger && after.game == before.game
            && after.events == before.events,
    ensures
        step.leads(before, after),
{
}

/// What settling for a loser did is a step.
proof fn lemma_loser_leads(
    before: AppState,
    after: AppState,
    step: SettleStep,
    result: Option<(Vec<Transaction>, Vec<AppEvent>)>,
)
    requires
        step is Loser,
        after.marketplace == before.marketplace,
        after.auctions == before.auctions,
        after.sessions == before.sessions,
        result is Some <==> step.has_room(before),
        result is Some ==> is_loss_settlement(
            before,
            after,
            result->0,
            step.session()@,
            step->Loser_slot,
            paid_back(step->refund),
            step->Loser_inclusion_type,
        ),
        result is None ==> after.ledger == before.ledger && after.game == before.game
            && after.events == before.events,
    ensures
        step.leads(before, after),
{
}

/// One more step after settled steps is settled.
proof fn lemma_settled_step(
    before: AppState,
    mid: AppState,
    after: AppState,
    steps: Seq<SettleStep>,
    skipped: Seq<String>,
    step: SettleStep,
)
    requires
        is_settled(before, mid, steps, skipped),
        step.leads(mid, after),
    ensures
        is_settled(
            before,
            after,
            steps.push(step),
            if step.has_room(mid) {
                skipped
            } else {
                skipped.push(step.session())
            },
        ),
{
    let longer = steps.push(step);
    assert(longer.drop_last() == steps);
    assert(longer.last() == step);
    if !step.has_room(mid) {
        assert(skipped.push(step.session()).drop_last() == skipped);
    }
    assert(longer.last().leads(mid, after));
}

/// Settles what a tick resolved: the JIT auction for its winner, then each
/// AOT auction for its winner and for each of its losers, who gets the sum
/// of their losing bids back. A session whose record has no room for its
/// settlement is left as it is and given back.
pub fn settle_tick(state: &mut AppState, report: &TickReport) -> (skipped: Vec<String>)
    ensures
        exists|refunds: Seq<Seq<(String, u128)>>| #[trigger]
            are_tick_refunds(refunds, report.aot_resolved@) && is_settled(
                *old(state),
                *final(state),
                jit_steps(*report) + aot_steps(report.aot_resolved@, refunds),
                skipped@,
            ),
        final(state).marketplace == old(state).marketplace,
        final(state).auctions == old(state).auctions,
        final(state).sessions == old(state).sessions,
        old(state).ledger.wf() ==> final(state).ledger.wf(),
        old(state).game.wf() ==> final(state).game.wf(),
{
    let mut skipped: Vec<String> = Vec::new();
    let ghost mut steps: Seq<SettleStep> = Seq::empty();
    match &report.jit_winner {
        Some(won) => {
            let ghost step = jit_steps(*report)[0];
            let ghost start = *state;
            let settled = settle_winner(
                state,
                won.0.as_str(),
                report.current_slot,
                won.1,
                InclusionType::Jit,
                TransactionType::Jit,
            );
            if settled.is_none() {
                skipped.push(won.0.clone());
            }
            proof {
                assert(report.jit_winner == Some(*won));
                assert(step == SettleStep::Winner {
                    session: won.0,
                    slot: report.current_slot,
                    winning_bid: won.1,
                    inclusion_type: InclusionType::Jit,
                    transaction_type: TransactionType::Jit,
                });
                assert(step.has_room(start) == (settled is Some));
                let now = choose|now: i64|
                    is_clock_reading(now) && #[trigger] is_win_settlement(
                        start,
                        *state,
                        settled->0,
                        won.0@,
                        report.current_slot,
                        won.1,
                        InclusionType::Jit,
                        TransactionType::Jit,
                        now,
                    );
                lemma_winner_leads(start, *state, step, settled, now);
                lemma_settled_step(start, start, *state, steps, Seq::empty(), step);
                steps = steps.push(step);
                assert(steps == jit_steps(*report));
            }
        },
        None => {
            assert(steps == jit_steps(*report));
        },
    }
    let ghost mut refunds: Seq<Seq<(String, u128)>> = Seq::empty();
    let mut k: usize = 0;
    while k < report.aot_resolved.len()
        invariant
            k <= report.aot_resolved.len(),
            are_tick_refunds(refunds, report.aot_resolved@.take(k as int)),
            steps == jit_steps(*report) + aot_steps(report.aot_resolved@.take(k as int), refunds),
            is_settled(*old(state), *state, steps, skipped@),
            state.marketplace == old(state).marketplace,
            state.auctions == old(state).auctions,
            state.sessions == old(state).sessions,
            old(state).ledger.wf() ==> state.ledger.wf(),
            old(state).game.wf() ==> state.game.wf(),
        decreases report.aot_resolved.len() - k,
    {
        let auction = &report.aot_resolved[k];
        let slot = auction.0;
        let inclusion = InclusionType::Aot { reserved_slot: slot };
        let ghost earlier = steps;
        let ghost winner_step = aot_winner_step(*auction);
        let ghost start = *state;
        let ghost held = skipped@;
        let settled = settle_winner(
            state,
            auction.1.as_str(),
            slot,
            auction.2,
            inclusion,
            TransactionType::Aot,
        );
        if settled.is_none() {
            skipped.push(auction.1.clone());
        }
        proof {
            assert(winner_step.has_room(start) == (settled is Some));
            let now = choose|now: i64|
                is_clock_reading(now) && #[trigger] is_win_settlement(
                    start,
                    *state,
                    settled->0,
                    auction.1@,
                    slot,
                    auction.2,
                    inclusion,
                    TransactionType::Aot,
                    now,
                );
            lemma_winner_leads(start, *state, winner_step, settled, now);
            lemma_settled_step(*old(state), start, *state, steps, held, winner_step);
            steps = steps.push(winner_step);
        }
        let shares = aggregate_refunds(&auction.3);
        let mut j: usize = 0;
        assert(loser_steps(slot, shares@.take(0)) =~= Seq::<SettleStep>::empty());
        assert(steps =~= earlier + seq![winner_step] + loser_steps(slot, shares@.take(0)));
        while j < shares.len()
            invariant
                j <= shares.len(),
                steps == earlier + seq![winner_step] + loser_steps(slot, shares@.take(j as int)),
                is_settled(*old(state), *state, steps, skipped@),
                inclusion == (InclusionType::Aot { reserved_slot: slot }),
                state.marketplace == old(state).marketplace,
                state.auctions == old(state).auctions,
                state.sessions == old(state).sessions,
                old(state).ledger.wf() ==> state.ledger.wf(),
                old(state).game.wf() ==> state.game.wf(),
            decreases shares.len() - j,
        {
            let share = &shares[j];
            let ghost step = SettleStep::Loser {
                session: share.0,
                slot,
                refund: share.1,
                inclusion_type: inclusion,
            };
            let ghost start = *state;
            let ghost held = skipped@;
            let settled = settle_loser_if_room(state, share.0.as_str(), slot, share.1, inclusion);
            if settled.is_none() {
                skipped.push(share.0.clone());
            }
            proof {
                assert(step.has_room(start) == (settled is Some));
                lemma_loser_leads(start, *state, step, settled);
                lemma_settled_step(*old(state), start, *state, steps, held, step);
                assert(loser_steps(slot, shares@.take(j + 1)) =~= loser_steps(
                    slot,
                    shares@.take(j as int),
                ).push(step));
                assert(steps.push(step) =~= earlier + seq![winner_step] + loser_steps(
                    slot,
                    shares@.take(j + 1),
                ));
                steps = steps.push(step);
            }
            j += 1;
        }
        proof {
            let resolved = report.aot_resolved@;
            let longer = refunds.push(shares@);
            assert(shares@.take(j as int) == shares@);
            assert(resolved.take(k + 1).drop_last() == resolved.take(k as int));
            assert(resolved.take(k + 1).last() == *auction);
            assert(longer.drop_last() == refunds);
            assert(aot_steps(resolved.take(k + 1), longer) == aot_steps(
                resolved.take(k as int),
                refunds,
            ) + seq![winner_step] + loser_steps(slot, shares@));
            assert(steps =~= jit_steps(*report) + aot_steps(resolved.take(k + 1), longer));
            assert forall|n: int| 0 <= n < k + 1 implies are_refunds_of(
                #[trigger] longer[n],
                resolved.take(k + 1)[n].3@,
            ) by {
                if n < k {
                    assert(longer[n] == refunds[n]);
                    assert(resolved.take(k as int)[n] == resolved[n]);
                }
            }
            refunds = longer;
        }
        k += 1;
    }
    assert(report.aot_resolved@.take(k as int) == report.aot_resolved@);
    assert(are_tick_refunds(refunds, report.aot_resolved@));
    skipped
}

} // verus!

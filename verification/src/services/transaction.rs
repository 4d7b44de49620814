//! Settling an auction: what becomes of the transactions of the winner and
//! of the losers, and of their balances.

use vstd::prelude::*;
use vstd::string::StringExecFns;
use crate::events::{event_views, AppEvent, AppEventView};
use crate::managers::game::{position, GameManager};
use crate::managers::ledger::{with_stored, TransactionLedger};
use crate::models::metrics::Achievement;
use crate::models::player::PlayerStatsView;
use crate::models::transaction::{Transaction, TransactionStatus};
use crate::models::types::{InclusionType, TransactionType};
use crate::outside::{is_clock_reading, now_millis};
use crate::state::AppState;
use crate::utils::amount::{decimal, decimal_text, sol_decimal, sol_text};

verus! {

/// A bid within this many lamports of the winning bid counts as the winning
/// bid: 0.0001 SOL.
pub const BID_MATCH_TOLERANCE: u64 = 100_000;

/// Whether a transaction waits for the auction of the kind `inclusion_type`.
pub open spec fn is_waiting(transaction: Transaction, inclusion_type: InclusionType) -> bool {
    transaction.inclusion_type == inclusion_type && transaction.status is Pending
}

/// Whether a fee counts as the winning bid.
pub open spec fn bid_matches(fee: u64, winning_bid: u64) -> bool {
    if fee >= winning_bid {
        fee - winning_bid < BID_MATCH_TOLERANCE
    } else {
        winning_bid - fee < BID_MATCH_TOLERANCE
    }
}

/// Whether `reason` says that a bid of `fee` lamports was outbid and is
/// refunded: the amount is written in SOL.
pub open spec fn is_outbid_reason(fee: u64, reason: String) -> bool {
    reason@ == "Outbid by higher amount. Refunding "@ + sol_decimal(fee) + " SOL"@
}

/// Whether `reason` says that the auction on `slot` was lost: the number is
/// written in decimal.
pub open spec fn is_loss_reason(slot: u64, reason: String) -> bool {
    reason@ == "Lost auction for slot "@ + decimal(slot as nat)
}

/// Why a transaction of the winner that bid `fee` lamports has failed.
pub fn outbid_reason(fee: u64) -> (reason: String)
    ensures
        is_outbid_reason(fee, reason),
{
    let amount = sol_text(fee);
    "Outbid by higher amount. Refunding ".to_owned().concat(amount.as_str()).concat(" SOL")
}

/// Why a transaction of a loser of the auction on `slot` has failed.
pub fn loss_reason(slot: u64) -> (reason: String)
    ensures
        is_loss_reason(slot, reason),
{
    let digits = decimal_text(slot);
    "Lost auction for slot ".to_owned().concat(digits.as_str())
}

/// Whether `after` is the waiting transaction `before` of the winner once
/// the auction is settled at `now`: it has won if its fee is the winning
/// bid, and has failed as outbid if not.
pub open spec fn is_settled_win(
    before: Transaction,
    after: Transaction,
    slot: u64,
    winning_bid: u64,
    now: i64,
) -> bool {
    if bid_matches(before.priority_fee, winning_bid) {
        after == (Transaction {
            status: TransactionStatus::AuctionWon { slot, winning_bid },
            included_at: Some(now),
            ..before
        })
    } else {
        &&& after.status matches TransactionStatus::Failed { reason }
        &&& is_outbid_reason(before.priority_fee, reason)
        &&& after == (Transaction { status: after.status, ..before })
    }
}

/// Whether `after` is the waiting transaction `before` of a loser once the
/// auction on `slot` is settled: it has failed.
pub open spec fn is_settled_loss(before: Transaction, after: Transaction, slot: u64) -> bool {
    &&& after.status matches TransactionStatus::Failed { reason }
    &&& is_loss_reason(slot, reason)
    &&& after == (Transaction { status: after.status, ..before })
}

/// Those of `transactions` that wait for the auction, in their order.
pub open spec fn waiting_among(transactions: Seq<Transaction>, inclusion_type: InclusionType) -> Seq<
    Transaction,
>
    decreases transactions.len(),
{
    if transactions.len() == 0 {
        Seq::empty()
    } else {
        let before = waiting_among(transactions.drop_last(), inclusion_type);
        if is_waiting(transactions.last(), inclusion_type) {
            before.push(transactions.last())
        } else {
            before
        }
    }
}

/// The sum of the fees of the waiting transactions that are outbid.
pub open spec fn outbid_total(waiting: Seq<Transaction>, winning_bid: u64) -> nat
    decreases waiting.len(),
{
    if waiting.len() == 0 {
        0
    } else if bid_matches(waiting.last().priority_fee, winning_bid) {
        outbid_total(waiting.drop_last(), winning_bid)
    } else {
        outbid_total(waiting.drop_last(), winning_bid) + waiting.last().priority_fee as nat
    }
}

/// The transactions with each of `changed` stored under its identifier,
/// one after another.
pub open spec fn store_all(transactions: Seq<Transaction>, changed: Seq<Transaction>) -> Seq<
    Transaction,
>
    decreases changed.len(),
{
    if changed.len() == 0 {
        transactions
    } else {
        with_stored(store_all(transactions, changed.drop_last()), changed.last())
    }
}

/// The events that announce the transactions `changed`, one each.
pub open spec fn update_events(changed: Seq<Transaction>) -> Seq<AppEventView> {
    Seq::new(
        changed.len(),
        |i: int| AppEventView::TransactionUpdated { transaction: changed[i] },
    )
}

/// Whether `changed` are the transactions `waiting` of the winner, one for
/// one, as the settlement at `now` leaves them.
pub open spec fn are_settled_wins(
    waiting: Seq<Transaction>,
    changed: Seq<Transaction>,
    slot: u64,
    winning_bid: u64,
    now: i64,
) -> bool {
    &&& changed.len() == waiting.len()
    &&& forall|i: int|
        0 <= i < waiting.len() ==> is_settled_win(
            waiting[i],
            #[trigger] changed[i],
            slot,
            winning_bid,
            now,
        )
}

/// Whether `changed` are the transactions `waiting` of a loser of the
/// auction on `slot`, one for one, as the settlement leaves them.
pub open spec fn are_settled_losses(
    waiting: Seq<Transaction>,
    changed: Seq<Transaction>,
    slot: u64,
) -> bool {
    &&& changed.len() == waiting.len()
    &&& forall|i: int|
        0 <= i < waiting.len() ==> is_settled_loss(waiting[i], #[trigger] changed[i], slot)
}

/// Whether the players `after` are the players `before` with the winner's
/// record, if there is one, refunded and then counted as the winner of an
/// auction of the kind `transaction_type` on `slot`.
pub open spec fn is_winner_counted(
    before: Seq<PlayerStatsView>,
    after: Seq<PlayerStatsView>,
    winner_session: Seq<char>,
    refund: u64,
    slot: u64,
    transaction_type: TransactionType,
) -> bool {
    &&& after.len() == before.len()
    &&& forall|i: int|
        0 <= i < before.len() && i != position(before, winner_session) ==> #[trigger] after[i]
            == before[i]
    &&& position(before, winner_session) < before.len() ==> exists|
        bonus: u32,
        awards: Seq<Achievement>,
    | #[trigger]
        before[position(before, winner_session)].refunded(refund, slot).is_won(
            after[position(before, winner_session)],
            transaction_type,
            bonus,
            awards,
        )
}

/// Whether the players `after` are the players `before` with the loser's
/// record, if there is one, refunded and then counted as a loser of the
/// auction on `slot`.
pub open spec fn is_loser_counted(
    before: Seq<PlayerStatsView>,
    after: Seq<PlayerStatsView>,
    loser_session: Seq<char>,
    refund: u64,
    slot: u64,
) -> bool {
    &&& after.len() == before.len()
    &&& forall|i: int|
        0 <= i < before.len() && i != position(before, loser_session) ==> #[trigger] after[i]
            == before[i]
    &&& position(before, loser_session) < before.len() ==> exists|awards: Seq<Achievement>| #[trigger]
        before[position(before, loser_session)].refunded(refund, slot).is_lost(
            after[position(before, loser_session)],
            awards,
        )
}

/// Whether `after` and `settlement` are what settling a won auction for the
/// winner at `now` makes of `before`: the transactions of the winner that
/// wait for the auction are settled, stored and announced, the fees of the
/// outbid ones are refunded, and the win is counted.
pub open spec fn is_win_settlement(
    before: AppState,
    after: AppState,
    settlement: WinSettlement,
    winner_session: Seq<char>,
    slot: u64,
    winning_bid: u64,
    inclusion_type: InclusionType,
    transaction_type: TransactionType,
    now: i64,
) -> bool {
    let waiting = waiting_among(before.ledger.of_session(winner_session), inclusion_type);
    &&& are_settled_wins(waiting, settlement.changed@, slot, winning_bid, now)
    &&& settlement.refund_total == outbid_total(waiting, winning_bid)
    &&& after.ledger.transactions@ == store_all(before.ledger.transactions@, settlement.changed@)
    &&& after.ledger.session_transactions@ == before.ledger.session_transactions@
    &&& event_views(settlement.events@) == update_events(settlement.changed@)
    &&& after.events.has_published(&before.events, settlement.events@)
    &&& is_winner_counted(
        before.game.players(),
        after.game.players(),
        winner_session,
        settlement.refund_total as u64,
        slot,
        transaction_type,
    )
}

/// Whether `after` and `result` are what settling a lost auction for one
/// loser makes of `before`: the bids are refunded, the transactions of the
/// loser that wait for the auction have failed and are stored and
/// announced, and the loss is counted.
pub open spec fn is_loss_settlement(
    before: AppState,
    after: AppState,
    result: (Vec<Transaction>, Vec<AppEvent>),
    loser_session: Seq<char>,
    slot: u64,
    refund: u64,
    inclusion_type: InclusionType,
) -> bool {
    let waiting = waiting_among(before.ledger.of_session(loser_session), inclusion_type);
    &&& are_settled_losses(waiting, result.0@, slot)
    &&& after.ledger.transactions@ == store_all(before.ledger.transactions@, result.0@)
    &&& after.ledger.session_transactions@ == before.ledger.session_transactions@
    &&& event_views(result.1@) == update_events(result.0@)
    &&& after.events.has_published(&before.events, result.1@)
    &&& is_loser_counted(before.game.players(), after.game.players(), loser_session, refund, slot)
}

/// What settling the transactions of the winner did.
#[derive(Debug)]
pub struct WinSettlement {
    /// The transactions that were changed, in the order they were stored.
    pub changed: Vec<Transaction>,
    /// The fees of the outbid transactions, to refund.
    pub refund_total: u128,
    /// The events that announce the changes.
    pub events: Vec<AppEvent>,
}

/// The sum of the outbid fees of a sequence is no more than its length
/// times the greatest fee.
proof fn lemma_outbid_total_bound(waiting: Seq<Transaction>, winning_bid: u64)
    ensures
        outbid_total(waiting, winning_bid) <= waiting.len() * u64::MAX,
    decreases waiting.len(),
{
    if waiting.len() > 0 {
        lemma_outbid_total_bound(waiting.drop_last(), winning_bid);
        assert((waiting.len() - 1) * u64::MAX + u64::MAX == waiting.len() * u64::MAX)
            by (nonlinear_arith);
    }
}

/// Whether a fee counts as the winning bid.
pub fn fee_matches(fee: u64, winning_bid: u64) -> (matches: bool)
    ensures
        matches == bid_matches(fee, winning_bid),
{
    if fee >= winning_bid {
        fee - winning_bid < BID_MATCH_TOLERANCE
    } else {
        winning_bid - fee < BID_MATCH_TOLERANCE
    }
}

/// Settles the transactions of the winner of the auction for `slot` at the
/// time `now`: each transaction of the session that waits for the auction
/// has won if its fee is the winning bid, and has failed as outbid if not.
/// The changed transactions are stored; the fees of the outbid ones are
/// summed for the refund.
pub fn settle_winner_transactions(
    ledger: &mut TransactionLedger,
    winner_session: &str,
    slot: u64,
    winning_bid: u64,
    inclusion_type: InclusionType,
    now: i64,
) -> (result: (Vec<Transaction>, u128))
    ensures
        are_settled_wins(
            waiting_among(old(ledger).of_session(winner_session@), inclusion_type),
            result.0@,
            slot,
            winning_bid,
            now,
        ),
        result.1 == outbid_total(
            waiting_among(old(ledger).of_session(winner_session@), inclusion_type),
            winning_bid,
        ),
        final(ledger).transactions@ == store_all(old(ledger).transactions@, result.0@),
        final(ledger).session_transactions@ == old(ledger).session_transactions@,
        old(ledger).wf() ==> final(ledger).wf(),
{
    let listed = ledger.of_session_all(winner_session);
    let mut changed: Vec<Transaction> = Vec::new();
    let mut refund_total: u128 = 0;
    let mut i: usize = 0;
    while i < listed.len()
        invariant
            i <= listed.len(),
            listed@ == old(ledger).of_session(winner_session@),
            are_settled_wins(
                waiting_among(listed@.take(i as int), inclusion_type),
                changed@,
                slot,
                winning_bid,
                now,
            ),
            refund_total == outbid_total(
                waiting_among(listed@.take(i as int), inclusion_type),
                winning_bid,
            ),
            ledger.transactions@ == store_all(old(ledger).transactions@, changed@),
            ledger.session_transactions@ == old(ledger).session_transactions@,
            old(ledger).wf() ==> ledger.wf(),
            changed@.len() <= i,
        decreases listed.len() - i,
    {
        let ghost seen = waiting_among(listed@.take(i as int), inclusion_type);
        let ghost next = listed@.take(i + 1);
        let ghost held = changed@;
        assert(next.drop_last() == listed@.take(i as int));
        assert(next.last() == listed@[i as int]);
        let mut transaction = listed[i].clone();
        if transaction.inclusion_type == inclusion_type && transaction.is_pending() {
            proof {
                let longer = seen.push(listed@[i as int]);
                assert(longer.drop_last() == seen);
                lemma_outbid_total_bound(seen, winning_bid);
                assert(seen.len() <= i);
                assert(seen.len() * u64::MAX + u64::MAX <= (i + 1) * u64::MAX) by (nonlinear_arith)
                    requires
                        seen.len() <= i,
                ;
                assert((i + 1) * u64::MAX <= usize::MAX * u64::MAX) by (nonlinear_arith)
                    requires
                        i + 1 <= usize::MAX,
                ;
                assert(usize::MAX * u64::MAX <= u64::MAX * u64::MAX) by (nonlinear_arith)
                    requires
                        usize::MAX <= u64::MAX,
                ;
            }
            if fee_matches(transaction.priority_fee, winning_bid) {
                transaction.mark_included_at(slot, now);
                transaction.mark_auction_won(slot, winning_bid);
            } else {
                transaction.mark_failed(outbid_reason(transaction.priority_fee));
                refund_total = refund_total + transaction.priority_fee as u128;
            }
            ledger.store(transaction.clone());
            changed.push(transaction);
            proof {
                assert(changed@.drop_last() == held);
                assert forall|n: int| 0 <= n < seen.len() + 1 implies is_settled_win(
                    seen.push(listed@[i as int])[n],
                    #[trigger] changed@[n],
                    slot,
                    winning_bid,
                    now,
                ) by {
                    if n < seen.len() {
                        assert(changed@[n] == held[n]);
                    }
                }
            }
        }
        i += 1;
    }
    assert(listed@.take(i as int) == listed@);
    (changed, refund_total)
}

/// Settles the transactions of a loser of the auction: each transaction of
/// the session that waits for the auction has failed. The changed
/// transactions are stored.
pub fn settle_loser_transactions(
    ledger: &mut TransactionLedger,
    loser_session: &str,
    slot: u64,
    inclusion_type: InclusionType,
) -> (changed: Vec<Transaction>)
    ensures
        are_settled_losses(
            waiting_among(old(ledger).of_session(loser_session@), inclusion_type),
            changed@,
            slot,
        ),
        final(ledger).transactions@ == store_all(old(ledger).transactions@, changed@),
        final(ledger).session_transactions@ == old(ledger).session_transactions@,
        old(ledger).wf() ==> final(ledger).wf(),
{
    let listed = ledger.of_session_all(loser_session);
    let mut changed: Vec<Transaction> = Vec::new();
    let mut i: usize = 0;
    while i < listed.len()
        invariant
            i <= listed.len(),
            listed@ == old(ledger).of_session(loser_session@),
            are_settled_losses(
                waiting_among(listed@.take(i as int), inclusion_type),
                changed@,
                slot,
            ),
            ledger.transactions@ == store_all(old(ledger).transactions@, changed@),
            ledger.session_transactions@ == old(ledger).session_transactions@,
            old(ledger).wf() ==> ledger.wf(),
        decreases listed.len() - i,
    {
        let ghost seen = waiting_among(listed@.take(i as int), inclusion_type);
        let ghost next = listed@.take(i + 1);
        let ghost held = changed@;
        assert(next.drop_last() == listed@.take(i as int));
        assert(next.last() == listed@[i as int]);
        let mut transaction = listed[i].clone();
        if transaction.inclusion_type == inclusion_type && transaction.is_pending() {
            transaction.mark_failed(loss_reason(slot));
            ledger.store(transaction.clone());
            changed.push(transaction);
            proof {
                assert(changed@.drop_last() == held);
                assert forall|n: int| 0 <= n < seen.len() + 1 implies is_settled_loss(
                    seen.push(listed@[i as int])[n],
                    #[trigger] changed@[n],
                    slot,
                ) by {
                    if n < seen.len() {
                        assert(changed@[n] == held[n]);
                    }
                }
            }
        }
        i += 1;
    }
    assert(listed@.take(i as int) == listed@);
    changed
}

/// The events that announce the transactions `changed`, one each, in their
/// order.
pub fn announce_updates(changed: &Vec<Transaction>) -> (events: Vec<AppEvent>)
    ensures
        event_views(events@) == update_events(changed@),
{
    let mut events: Vec<AppEvent> = Vec::new();
    let mut i: usize = 0;
    assert(event_views(events@) =~= update_events(changed@.take(0)));
    while i < changed.len()
        invariant
            i <= changed.len(),
            event_views(events@) == update_events(changed@.take(i as int)),
        decreases changed.len() - i,
    {
        let ghost held = events@;
        let event = AppEvent::TransactionUpdated { transaction: changed[i].clone() };
        events.push(event);
        assert(event_views(events@) =~= event_views(held).push(event@));
        assert(update_events(changed@.take(i + 1)) =~= update_events(changed@.take(i as int)).push(
            event@,
        ));
        i += 1;
    }
    assert(changed@.take(i as int) == changed@);
    events
}

impl PlayerStatsView {
    /// The record of the winner once the refund is credited and the auction
    /// on `slot` is counted as over, before the win itself is counted.
    pub open spec fn refunded(self, refund: u64, slot: u64) -> PlayerStatsView {
        (PlayerStatsView { balance: (self.balance + refund) as u64, ..self }).with_resolved(slot)
    }

    /// Whether the record has room for the settlement of a won auction
    /// with a refund of `refund`.
    pub open spec fn has_settlement_room(self, refund: nat) -> bool {
        self.has_refund_room(refund) && self.has_win_room()
    }

    /// Whether the record has room for the settlement of a lost auction
    /// with a refund of `refund`.
    pub open spec fn has_loss_room(self, refund: nat) -> bool {
        self.has_refund_room(refund) && self.has_award_room()
    }

    /// Whether the record has room for a refund of `refund` and one more
    /// auction that is over.
    pub open spec fn has_refund_room(self, refund: nat) -> bool {
        &&& self.balance + refund <= u64::MAX
        &&& self.total_auctions_participated < u32::MAX
    }
}

impl GameManager {
    /// Whether the player of `session_id`, if there is one, has room for a
    /// refund of `refund` and for one more auction that is over.
    pub fn can_refund(&self, session_id: &str, refund: u128) -> (fits: bool)
        ensures
            fits == (position(self.players(), session_id@) < self.players().len()
                ==> self.players()[position(self.players(), session_id@)].has_refund_room(
                refund as nat,
            )),
    {
        match self.find_player(session_id) {
            Some(index) => {
                let player = &self.player_stats[index];
                assert(player@ == self.players()[index as int]);
                player.total_auctions_participated < u32::MAX && refund <= (u64::MAX
                    - player.balance) as u128
            },
            None => true,
        }
    }

    /// Credits `refund` to the player of `session_id`, if there is one, and
    /// counts the auction on `slot` as over for the player.
    pub fn refund_player(&mut self, session_id: &str, refund: u64, slot: u64)
        requires
            position(old(self).players(), session_id@) < old(self).players().len() ==> old(self).players()[position(old(self).players(), session_id@)].has_refund_room(refund as nat),
        ensures
            final(self).players().len() == old(self).players().len(),
            forall|i: int|
                0 <= i < old(self).players().len() && i != position(
                    old(self).players(),
                    session_id@,
                ) ==> #[trigger] final(self).players()[i] == old(self).players()[i],
            position(old(self).players(), session_id@) < old(self).players().len() ==> final(self).players()[position(old(self).players(), session_id@)] == old(self).players()[position(old(self).players(), session_id@)].refunded(refund, slot),
            old(self).wf() ==> final(self).wf(),
    {
        match self.find_player(session_id) {
            Some(index) => {
                let ghost base = self.players();
                let ghost records = self.player_stats@;
                let player = &mut self.player_stats[index];
                proof {
                    assert(player@ == base[index as int]);
                    assert(crate::managers::game::player_views(
                        records.update(index as int, *final(player)),
                    ) =~= base.update(index as int, final(player)@));
                }
                if refund > 0 {
                    player.increment_balance(refund);
                }
                player.mark_auction_resolved(slot);
                proof {
                    assert(self.players() == base.update(index as int, self.players()[index as int]));
                }
            },
            None => {},
        }
    }
}

/// Settles a won auction for the winner at the time `now`: the
/// transactions of the winner are settled and announced, the fees of the
/// outbid ones are refunded, and the win is counted for the player.
pub fn update_transaction_status_win_at(
    state: &mut AppState,
    winner_session: &str,
    slot: u64,
    winning_bid: u64,
    inclusion_type: InclusionType,
    transaction_type: TransactionType,
    now: i64,
) -> (settlement: WinSettlement)
    requires
        position(old(state).game.players(), winner_session@) < old(state).game.players().len()
            ==> old(state).game.players()[position(
            old(state).game.players(),
            winner_session@,
        )].has_settlement_room(
            outbid_total(
                waiting_among(old(state).ledger.of_session(winner_session@), inclusion_type),
                winning_bid,
            ),
        ),
    ensures
        is_win_settlement(
            *old(state),
            *final(state),
            settlement,
            winner_session@,
            slot,
            winning_bid,
            inclusion_type,
            transaction_type,
            now,
        ),
        final(state).marketplace == old(state).marketplace,
        final(state).auctions == old(state).auctions,
        final(state).sessions == old(state).sessions,
        old(state).ledger.wf() ==> final(state).ledger.wf(),
        old(state).game.wf() ==> final(state).game.wf(),
{
    let (changed, refund_total) = settle_winner_transactions(
        &mut state.ledger,
        winner_session,
        slot,
        winning_bid,
        inclusion_type,
        now,
    );
    let events = announce_updates(&changed);
    state.events.broadcast_all(&events);
    let ghost players = state.game.players();
    let ghost index = position(players, winner_session@);
    assert(players == old(state).game.players());
    match state.game.find_player(winner_session) {
        Some(_) => {
            let refund = refund_total as u64;
            state.game.refund_player(winner_session, refund, slot);
            let ghost refunded = state.game.players();
            proof {
                crate::managers::game::lemma_position_from(players, winner_session@, 0);
                assert forall|i: int| 0 <= i < players.len() implies (#[trigger] refunded[i]).session_id@
                    == players[i].session_id@ by {
                    if i != index {
                        assert(refunded[i] == players[i]);
                    }
                }
                lemma_position_kept(players, refunded, winner_session@);
            }
            state.game.process_auction_win(winner_session, transaction_type);
            proof {
                let after = state.game.players();
                let (bonus, awards) = choose|bonus: u32, awards: Seq<Achievement>| #[trigger]
                    refunded[index].is_won(after[index], transaction_type, bonus, awards);
                assert(players[index].refunded(refund_total as u64, slot).is_won(
                    after[index],
                    transaction_type,
                    bonus,
                    awards,
                ));
            }
        },
        None => {},
    }
    let settlement = WinSettlement { changed, refund_total, events };
    proof {
        if index < players.len() {
            let after = state.game.players();
            let (bonus, awards) = choose|bonus: u32, awards: Seq<Achievement>| #[trigger]
                players[index].refunded(refund_total as u64, slot).is_won(
                    after[index],
                    transaction_type,
                    bonus,
                    awards,
                );
            assert(old(state).game.players()[position(
                old(state).game.players(),
                winner_session@,
            )].refunded(settlement.refund_total as u64, slot).is_won(
                state.game.players()[position(old(state).game.players(), winner_session@)],
                transaction_type,
                bonus,
                awards,
            ));
        }
    }
    settlement
}

/// Settles a won auction for the winner now.
pub fn update_transaction_status_win(
    state: &mut AppState,
    winner_session: &str,
    slot: u64,
    winning_bid: u64,
    inclusion_type: InclusionType,
    transaction_type: TransactionType,
) -> (settlement: WinSettlement)
    requires
        position(old(state).game.players(), winner_session@) < old(state).game.players().len()
            ==> old(state).game.players()[position(
            old(state).game.players(),
            winner_session@,
        )].has_settlement_room(
            outbid_total(
                waiting_among(old(state).ledger.of_session(winner_session@), inclusion_type),
                winning_bid,
            ),
        ),
    ensures
        exists|now: i64|
            is_clock_reading(now) && #[trigger] is_win_settlement(
                *old(state),
                *final(state),
                settlement,
                winner_session@,
                slot,
                winning_bid,
                inclusion_type,
                transaction_type,
                now,
            ),
        final(state).marketplace == old(state).marketplace,
        final(state).auctions == old(state).auctions,
        final(state).sessions == old(state).sessions,
        old(state).ledger.wf() ==> final(state).ledger.wf(),
        old(state).game.wf() ==> final(state).game.wf(),
{
    let now = now_millis();
    update_transaction_status_win_at(
        state,
        winner_session,
        slot,
        winning_bid,
        inclusion_type,
        transaction_type,
        now,
    )
}

/// Settles a lost auction for a loser: the transactions of the session
/// that wait for the auction have failed, and are announced.
pub fn update_transaction_status_lose(
    state: &mut AppState,
    loser_session: &str,
    slot: u64,
    inclusion_type: InclusionType,
) -> (result: (Vec<Transaction>, Vec<AppEvent>))
    ensures
        are_settled_losses(
            waiting_among(old(state).ledger.of_session(loser_session@), inclusion_type),
            result.0@,
            slot,
        ),
        final(state).ledger.transactions@ == store_all(old(state).ledger.transactions@, result.0@),
        final(state).ledger.session_transactions@ == old(state).ledger.session_transactions@,
        event_views(result.1@) == update_events(result.0@),
        final(state).events.has_published(&old(state).events, result.1@),
        final(state).marketplace == old(state).marketplace,
        final(state).auctions == old(state).auctions,
        final(state).game == old(state).game,
        final(state).sessions == old(state).sessions,
        old(state).ledger.wf() ==> final(state).ledger.wf(),
{
    let changed = settle_loser_transactions(&mut state.ledger, loser_session, slot, inclusion_type);
    let events = announce_updates(&changed);
    state.events.broadcast_all(&events);
    (changed, events)
}

/// Settles a lost auction for one loser: the bids are refunded and the
/// auction on `slot` is counted as over for the player; the transactions
/// of the session that wait for the auction have failed; then the loss is
/// counted for the player.
pub fn settle_loser(
    state: &mut AppState,
    loser_session: &str,
    slot: u64,
    refund: u64,
    inclusion_type: InclusionType,
) -> (result: (Vec<Transaction>, Vec<AppEvent>))
    requires
        position(old(state).game.players(), loser_session@) < old(state).game.players().len()
            ==> old(state).game.players()[position(
            old(state).game.players(),
            loser_session@,
        )].has_loss_room(refund as nat),
    ensures
        is_loss_settlement(
            *old(state),
            *final(state),
            result,
            loser_session@,
            slot,
            refund,
            inclusion_type,
        ),
        final(state).marketplace == old(state).marketplace,
        final(state).auctions == old(state).auctions,
        final(state).sessions == old(state).sessions,
        old(state).ledger.wf() ==> final(state).ledger.wf(),
        old(state).game.wf() ==> final(state).game.wf(),
{
    let ghost players = state.game.players();
    let ghost index = position(players, loser_session@);
    state.game.refund_player(loser_session, refund, slot);
    let ghost refunded = state.game.players();
    proof {
        crate::managers::game::lemma_position_from(players, loser_session@, 0);
        assert forall|i: int| 0 <= i < players.len() implies (#[trigger] refunded[i]).session_id@
            == players[i].session_id@ by {
            if i != index {
                assert(refunded[i] == players[i]);
            }
        }
        lemma_position_kept(players, refunded, loser_session@);
    }
    let result = update_transaction_status_lose(state, loser_session, slot, inclusion_type);
    state.game.process_auction_loss(loser_session);
    proof {
        if index < players.len() {
            let after = state.game.players();
            let awards = choose|awards: Seq<Achievement>| #[trigger]
                refunded[index].is_lost(after[index], awards);
            assert(players[index].refunded(refund, slot).is_lost(after[index], awards));
        }
    }
    result
}

/// The fees that a settlement of the winner would refund: those of the
/// transactions of the session that wait for the auction and are outbid.
pub fn waiting_refund(
    ledger: &TransactionLedger,
    winner_session: &str,
    winning_bid: u64,
    inclusion_type: InclusionType,
) -> (refund: u128)
    ensures
        refund == outbid_total(
            waiting_among(ledger.of_session(winner_session@), inclusion_type),
            winning_bid,
        ),
{
    let listed = ledger.of_session_all(winner_session);
    let mut refund: u128 = 0;
    let mut i: usize = 0;
    while i < listed.len()
        invariant
            i <= listed.len(),
            refund == outbid_total(
                waiting_among(listed@.take(i as int), inclusion_type),
                winning_bid,
            ),
            waiting_among(listed@.take(i as int), inclusion_type).len() <= i,
        decreases listed.len() - i,
    {
        let ghost seen = waiting_among(listed@.take(i as int), inclusion_type);
        let ghost next = listed@.take(i + 1);
        assert(next.drop_last() == listed@.take(i as int));
        assert(next.last() == listed@[i as int]);
        let transaction = &listed[i];
        if transaction.inclusion_type == inclusion_type && transaction.is_pending() {
            proof {
                let longer = seen.push(listed@[i as int]);
                assert(longer.drop_last() == seen);
                lemma_outbid_total_bound(seen, winning_bid);
                assert(seen.len() * u64::MAX + u64::MAX <= (i + 1) * u64::MAX) by (nonlinear_arith)
                    requires
                        seen.len() <= i,
                ;
                assert((i + 1) * u64::MAX <= u64::MAX * u64::MAX) by (nonlinear_arith)
                    requires
                        i + 1 <= u64::MAX,
                ;
            }
            if !fee_matches(transaction.priority_fee, winning_bid) {
                refund = refund + transaction.priority_fee as u128;
            }
        }
        i += 1;
    }
    assert(listed@.take(i as int) == listed@);
    refund
}

/// Settles a won auction for the winner now, if the record of the winner
/// has room for the refund and for the win; else nothing is done, and
/// `None` says so.
pub fn settle_winner(
    state: &mut AppState,
    winner_session: &str,
    slot: u64,
    winning_bid: u64,
    inclusion_type: InclusionType,
    transaction_type: TransactionType,
) -> (settlement: Option<WinSettlement>)
    ensures
        settlement is Some <==> (position(old(state).game.players(), winner_session@) < old(state).game.players().len() ==> old(state).game.players()[position(
            old(state).game.players(),
            winner_session@,
        )].has_settlement_room(
            outbid_total(
                waiting_among(old(state).ledger.of_session(winner_session@), inclusion_type),
                winning_bid,
            ),
        )),
        settlement is Some ==> exists|now: i64|
            is_clock_reading(now) && #[trigger] is_win_settlement(
                *old(state),
                *final(state),
                settlement->0,
                winner_session@,
                slot,
                winning_bid,
                inclusion_type,
                transaction_type,
                now,
            ),
        settlement is None ==> final(state).ledger == old(state).ledger && final(state).game == old(
            state,
        ).game && final(state).events == old(state).events,
        final(state).marketplace == old(state).marketplace,
        final(state).auctions == old(state).auctions,
        final(state).sessions == old(state).sessions,
        old(state).ledger.wf() ==> final(state).ledger.wf(),
        old(state).game.wf() ==> final(state).game.wf(),
{
    let refund = waiting_refund(&state.ledger, winner_session, winning_bid, inclusion_type);
    let ready = match state.game.find_player(winner_session) {
        Some(index) => {
            let player = &state.game.player_stats[index];
            assert(player@ == state.game.players()[index as int]);
            state.game.can_refund(winner_session, refund) && player.can_count_win()
        },
        None => true,
    };
    if ready {
        let done = update_transaction_status_win(
            state,
            winner_session,
            slot,
            winning_bid,
            inclusion_type,
            transaction_type,
        );
        proof {
            let now = choose|now: i64|
                is_clock_reading(now) && #[trigger] is_win_settlement(
                    *old(state),
                    *state,
                    done,
                    winner_session@,
                    slot,
                    winning_bid,
                    inclusion_type,
                    transaction_type,
                    now,
                );
            assert(is_clock_reading(now) && is_win_settlement(
                *old(state),
                *state,
                done,
                winner_session@,
                slot,
                winning_bid,
                inclusion_type,
                transaction_type,
                now,
            ));
        }
        let ghost settled = done;
        let settlement = Some(done);
        assert(settlement->0 == settled);
        settlement
    } else {
        None
    }
}

/// Settles a lost auction for one loser, if the record of the loser has
/// room for the refund and for the achievements; else nothing is done, and
/// `None` says so.
pub fn settle_loser_if_room(
    state: &mut AppState,
    loser_session: &str,
    slot: u64,
    refund: u128,
    inclusion_type: InclusionType,
) -> (result: Option<(Vec<Transaction>, Vec<AppEvent>)>)
    ensures
        result is Some <==> (position(old(state).game.players(), loser_session@) < old(state).game.players().len() ==> old(state).game.players()[position(
            old(state).game.players(),
            loser_session@,
        )].has_loss_room(refund as nat)),
        result is Some ==> is_loss_settlement(
            *old(state),
            *final(state),
            result->0,
            loser_session@,
            slot,
            if refund <= u64::MAX {
                refund as u64
            } else {
                0
            },
            inclusion_type,
        ),
        result is None ==> final(state).ledger == old(state).ledger && final(state).game == old(
            state,
        ).game && final(state).events == old(state).events,
        final(state).marketplace == old(state).marketplace,
        final(state).auctions == old(state).auctions,
        final(state).sessions == old(state).sessions,
        old(state).ledger.wf() ==> final(state).ledger.wf(),
        old(state).game.wf() ==> final(state).game.wf(),
{
    let ready = match state.game.find_player(loser_session) {
        Some(index) => {
            let player = &state.game.player_stats[index];
            assert(player@ == state.game.players()[index as int]);
            state.game.can_refund(loser_session, refund) && player.can_take_awards()
        },
        None => true,
    };
    if ready {
        let amount = if refund <= u64::MAX as u128 {
            refund as u64
        } else {
            0
        };
        Some(settle_loser(state, loser_session, slot, amount, inclusion_type))
    } else {
        None
    }
}

/// A change of records that keeps every session keeps the place of each
/// session.
pub proof fn lemma_position_kept(
    before: Seq<PlayerStatsView>,
    after: Seq<PlayerStatsView>,
    session_id: Seq<char>,
)
    requires
        before.len() == after.len(),
        forall|i: int|
            0 <= i < before.len() ==> (#[trigger] after[i]).session_id@ == before[i].session_id@,
    ensures
        position(after, session_id) == position(before, session_id),
{
    lemma_position_from_kept(before, after, session_id, 0);
}

proof fn lemma_position_from_kept(
    before: Seq<PlayerStatsView>,
    after: Seq<PlayerStatsView>,
    session_id: Seq<char>,
    from: int,
)
    requires
        before.len() == after.len(),
        0 <= from <= before.len(),
        forall|i: int|
            0 <= i < before.len() ==> (#[trigger] after[i]).session_id@ == before[i].session_id@,
    ensures
        crate::managers::game::position_from(after, session_id, from)
            == crate::managers::game::position_from(before, session_id, from),
    decreases before.len() - from,
{
    if from < before.len() {
        assert(after[from].session_id@ == before[from].session_id@);
        if before[from].session_id@ != session_id {
            lemma_position_from_kept(before, after, session_id, from + 1);
        }
    }
}

} // verus!

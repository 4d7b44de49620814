//! The marketplace as a whole: the slot window, the auctions, the
//! transactions and the players, moved together. Every operation that
//! changes something publishes the events that announce the change, after
//! the change, and hands them back.

use vstd::prelude::*;
use vstd::string::StringExecFns;
use crate::events::{
    event_views, lemma_published_nothing, lemma_published_on, AppEvent, AppEventView,
    EventBroadcaster, EVENT_BACKLOG,
};
use crate::managers::auction::{resolves_due, still_open, AuctionManager};
use crate::managers::game::{
    payment_outcome, position, roster_after_payment, roster_with, GameManager, PaymentError,
};
use crate::managers::ledger::{
    is_page_of_newest, listed, lookups, page_end, stored, with_stored, TransactionLedger,
};
use crate::managers::leaderboard::{
    all_places, balance_scores, have_display_names, is_top, rate_scores, rated_places, win_scores,
};
use crate::managers::session::SessionManager;
use crate::models::metrics::Leaderboard;
use crate::models::auction::{
    base_fee_fits, bid_pairs, can_end_after, deadline_fits, jit_min_bid, AotAuctionView,
    AuctionError, JitAuction,
};
use crate::models::marketplace::{
    settings_fit, window, window_times_fit, MarketplaceStats, SlotMarketplace,
    SlotMarketplaceView,
};
use crate::models::transaction::Transaction;
use crate::models::types::{InclusionType, TransactionType};
use crate::outside::{is_clock_reading, new_id, now_millis};
use crate::utils::amount::{decimal, decimal_text};
use crate::utils::transaction::{calculate_base_fee, is_fee_draw};
use crate::{MAX_COMPUTE_UNITS_PER_SLOT, MAX_DURATION_SECONDS, WINDOW_SIZE};

verus! {

/// Number of slots that a listing of the window shows.
pub const LISTING_DEPTH: u64 = 50;

/// Compute units that the winning transaction of a JIT auction uses.
pub const JIT_FILL_UNITS: u64 = 200_000;

/// One AOT auction as it was resolved: the slot, the winner, the winning
/// amount and the bids to refund.
pub type AotResolution = (u64, String, u64, Vec<(String, u64)>);

/// What one tick did.
#[derive(Debug)]
pub struct TickReport {
    /// The slot that is current after the tick.
    pub current_slot: u64,
    /// The winner of the JIT auction for that slot, if it had one.
    pub jit_winner: Option<(String, u64)>,
    /// The AOT auctions that were due and had a bid.
    pub aot_resolved: Vec<AotResolution>,
    /// The events of the tick, in the order they were published.
    pub events: Vec<AppEvent>,
}

/// The counts that describe a state.
pub open spec fn stats_of(
    current_slot: u64,
    slots: nat,
    jit_auctions: nat,
    aot_auctions: nat,
    transactions: nat,
) -> MarketplaceStats {
    MarketplaceStats {
        current_slot,
        total_slots: slots as usize,
        active_jit_auctions: jit_auctions as usize,
        active_aot_auctions: aot_auctions as usize,
        total_transactions: transactions as usize,
    }
}

/// The event that carries the counts `stats`.
pub open spec fn stats_event(stats: MarketplaceStats) -> AppEventView {
    AppEventView::MarketplaceStats {
        current_slot: stats.current_slot,
        active_jit_auctions: stats.active_jit_auctions,
        active_aot_auctions: stats.active_aot_auctions,
        total_transactions: stats.total_transactions,
    }
}

/// The events of a move to the next slot: the new current slot, the slots
/// of the listing, and the counts.
pub open spec fn slot_events(marketplace: SlotMarketplaceView, stats: MarketplaceStats) -> Seq<
    AppEventView,
> {
    seq![
        AppEventView::SlotAdvanced { current_slot: marketplace.current_slot },
        AppEventView::SlotsUpdated {
            slots: window(marketplace.slots, marketplace.current_slot, LISTING_DEPTH as nat),
        },
        stats_event(stats),
    ]
}

/// The events of the end of the JIT auction for `slot_number`: one if it
/// had a winner.
pub open spec fn jit_resolution_events(slot_number: u64, winner: Option<(String, u64)>) -> Seq<
    AppEventView,
> {
    match winner {
        Some((winner, winning_bid)) => seq![
            AppEventView::JitAuctionResolved { slot_number, winner, winning_bid },
        ],
        None => Seq::empty(),
    }
}

/// The events of the end of AOT auctions: one for each, in their order.
pub open spec fn aot_resolution_events(resolved: Seq<AotResolution>) -> Seq<AppEventView> {
    Seq::new(
        resolved.len(),
        |i: int|
            AppEventView::AotAuctionResolved {
                slot_number: resolved[i].0,
                winner: resolved[i].1,
                winning_bid: resolved[i].2,
            },
    )
}

/// The winner of the JIT auction for `slot_number`, if there is such an
/// auction and it has a leader.
pub open spec fn jit_winner_of(jit: Map<u64, JitAuction>, slot_number: u64) -> Option<(String, u64)> {
    if jit.contains_key(slot_number) {
        jit[slot_number].current_highest_bidder
    } else {
        None
    }
}

/// Whether an auction is due when `current_slot` becomes current at `now`:
/// the JIT auction for that slot, or an AOT auction whose deadline has
/// passed or whose slot has come.
pub open spec fn auction_due(
    jit: Map<u64, JitAuction>,
    aot: Map<u64, AotAuctionView>,
    current_slot: u64,
    now: i64,
) -> bool {
    jit.contains_key(current_slot) || exists|slot: u64| #[trigger]
        aot.contains_key(slot) && aot[slot].due_at(current_slot, now)
}

/// Whether `reference` names the transaction that fills `slot_number`:
/// the word `transaction_` and the number in decimal.
pub open spec fn is_fill_reference(slot_number: u64, reference: String) -> bool {
    reference@ == "transaction_"@ + decimal(slot_number as nat)
}

/// The name of the transaction that fills `slot_number`.
pub fn fill_reference(slot_number: u64) -> (reference: String)
    ensures
        is_fill_reference(slot_number, reference),
{
    let digits = decimal_text(slot_number);
    "transaction_".to_owned().concat(digits.as_str())
}

impl SlotMarketplaceView {
    /// The marketplace with the current slot reserved for the winner of its
    /// JIT auction and filled by the transaction `reference`, if there is a
    /// winner. The state that the slot was in does not count: an expired
    /// slot with a winner is reserved and filled too.
    pub open spec fn with_jit_winner(
        self,
        winner: Option<(String, u64)>,
        reference: String,
        now: i64,
    ) -> SlotMarketplaceView {
        match winner {
            Some((winner, winning_bid)) => self.reserved(
                self.current_slot,
                winner,
                winning_bid,
                TransactionType::Jit,
            ).filled(self.current_slot, winner, reference, JIT_FILL_UNITS, now),
            None => self,
        }
    }

    /// The marketplace with the slot of each resolved AOT auction reserved
    /// for its winner, one after another. The state that a slot was in
    /// does not count: a filled or expired slot is reserved again.
    pub open spec fn with_reservations(self, resolved: Seq<AotResolution>) -> SlotMarketplaceView
        decreases resolved.len(),
    {
        if resolved.len() == 0 {
            self
        } else {
            let entry = resolved.last();
            self.with_reservations(resolved.drop_last()).reserved(
                entry.0,
                entry.1,
                entry.2,
                TransactionType::Aot,
            )
        }
    }

    /// The marketplace after a whole tick at `now`.
    pub open spec fn ticked(
        self,
        now: i64,
        edge_fee: u64,
        jit_winner: Option<(String, u64)>,
        reference: String,
        resolved: Seq<AotResolution>,
    ) -> SlotMarketplaceView {
        self.advanced(now, edge_fee).with_jit_winner(jit_winner, reference, now).with_reservations(
            resolved,
        )
    }
}

/// The state of the marketplace.
pub struct AppState {
    pub marketplace: SlotMarketplace,
    pub auctions: AuctionManager,
    pub ledger: TransactionLedger,
    pub game: GameManager,
    pub sessions: SessionManager,
    pub events: EventBroadcaster,
}

impl AppState {
    /// The slot window, the auctions, the ledger and the players are well
    /// formed.
    pub open spec fn wf(&self) -> bool {
        &&& self.marketplace@.wf()
        &&& self.auctions.wf()
        &&& self.ledger.wf()
        &&& self.game.wf()
    }

    /// The counts that describe the state.
    pub open spec fn stats(&self) -> MarketplaceStats {
        stats_of(
            self.marketplace.current_slot,
            self.marketplace@.slots.len(),
            self.auctions.jit().len(),
            self.auctions.aot().len(),
            self.ledger.transactions@.len(),
        )
    }

    /// Whether the ledger, the players and the sessions of `self` are those
    /// of `other`.
    pub open spec fn same_books(&self, other: &AppState) -> bool {
        self.ledger == other.ledger && self.game == other.game && self.sessions == other.sessions
    }

    /// Whether the auctions of `self` are those of `other`.
    pub open spec fn same_auctions(&self, other: &AppState) -> bool {
        self.auctions.jit() == other.auctions.jit() && self.auctions.aot() == other.auctions.aot()
    }

    /// A marketplace opened at the time `now`, without auctions,
    /// transactions or players.
    pub fn new_at(slot_duration_ms: i64, base_fee: u64, now: i64) -> (state: Self)
        requires
            settings_fit(slot_duration_ms, base_fee),
            window_times_fit(now, slot_duration_ms),
        ensures
            state.marketplace@.opened_at(slot_duration_ms, base_fee, now),
            state.auctions.jit() == Map::<u64, JitAuction>::empty(),
            state.auctions.aot() == Map::<u64, AotAuctionView>::empty(),
            state.ledger.transactions@.len() == 0,
            state.game.players().len() == 0,
            state.events.published() == Seq::<AppEventView>::empty(),
            state.events.backlog() == EVENT_BACKLOG,
            state.wf(),
    {
        AppState {
            marketplace: SlotMarketplace::new_at(slot_duration_ms, base_fee, now),
            auctions: AuctionManager::new(),
            ledger: TransactionLedger::new(),
            game: GameManager::new(),
            sessions: SessionManager::new(),
            events: EventBroadcaster::new(),
        }
    }

    /// A marketplace opened now.
    pub fn new(slot_duration_ms: i64, base_fee: u64) -> (state: Self)
        requires
            settings_fit(slot_duration_ms, base_fee),
        ensures
            exists|now: i64|
                is_clock_reading(now) && #[trigger] state.marketplace@.opened_at(
                    slot_duration_ms,
                    base_fee,
                    now,
                ),
            state.auctions.jit() == Map::<u64, JitAuction>::empty(),
            state.auctions.aot() == Map::<u64, AotAuctionView>::empty(),
            state.ledger.transactions@.len() == 0,
            state.game.players().len() == 0,
            state.events.published() == Seq::<AppEventView>::empty(),
            state.events.backlog() == EVENT_BACKLOG,
            state.wf(),
    {
        let now = now_millis();
        Self::new_at(slot_duration_ms, base_fee, now)
    }

    /// The current slot.
    pub fn get_current_slot(&self) -> (current_slot: u64)
        ensures
            current_slot == self.marketplace.current_slot,
    {
        self.marketplace.current_slot
    }

    /// The counts that describe the state.
    pub fn get_marketplace_stats(&self) -> (stats: MarketplaceStats)
        ensures
            stats == self.stats(),
    {
        assert(self.marketplace@.slots.dom() =~= self.marketplace.slots@.dom());
        assert(self.auctions.aot().dom() =~= self.auctions.aot_auctions@.dom());
        MarketplaceStats {
            current_slot: self.marketplace.current_slot,
            total_slots: self.marketplace.slots.len(),
            active_jit_auctions: self.auctions.jit_auctions.len(),
            active_aot_auctions: self.auctions.aot_auctions.len(),
            total_transactions: self.ledger.transactions.len(),
        }
    }

    /// Publishes the counts that describe the state.
    pub fn broadcast_stats(&mut self) -> (event: AppEvent)
        ensures
            event@ == stats_event(old(self).stats()),
            final(self).events.has_published(&old(self).events, seq![event]),
            final(self).marketplace == old(self).marketplace,
            final(self).auctions == old(self).auctions,
            final(self).same_books(old(self)),
    {
        let stats = self.get_marketplace_stats();
        self.events.broadcast(
            AppEvent::MarketplaceStats {
                current_slot: stats.current_slot,
                active_jit_auctions: stats.active_jit_auctions,
                active_aot_auctions: stats.active_aot_auctions,
                total_transactions: stats.total_transactions,
            },
        );
        let event = AppEvent::MarketplaceStats {
            current_slot: stats.current_slot,
            active_jit_auctions: stats.active_jit_auctions,
            active_aot_auctions: stats.active_aot_auctions,
            total_transactions: stats.total_transactions,
        };
        assert(event_views(seq![event]) =~= seq![event@]);
        assert(old(self).events.published().push(event@) =~= old(self).events.published() + seq![
            event@,
        ]);
        event
    }

    /// Stores a transaction of `session_id` and announces it.
    pub fn add_transaction(&mut self, session_id: String, transaction: Transaction) -> (events: Vec<
        AppEvent,
    >)
        ensures
            final(self).events.has_published(&old(self).events, events@),
            final(self).ledger.transactions@ == with_stored(
                old(self).ledger.transactions@,
                transaction,
            ),
            listed(final(self).ledger.session_transactions@, session_id@) == listed(
                old(self).ledger.session_transactions@,
                session_id@,
            ).push(transaction.id@),
            forall|other: Seq<char>|
                other != session_id@ ==> listed(final(self).ledger.session_transactions@, other)
                    == listed(old(self).ledger.session_transactions@, other),
            event_views(events@) == seq![AppEventView::TransactionUpdated { transaction }],
            final(self).marketplace == old(self).marketplace,
            final(self).auctions == old(self).auctions,
            final(self).game == old(self).game,
            final(self).sessions == old(self).sessions,
            old(self).ledger.wf() ==> final(self).ledger.wf(),
    {
        let copy = transaction.clone();
        self.ledger.add(session_id, transaction);
        let mut events: Vec<AppEvent> = Vec::new();
        events.push(AppEvent::TransactionUpdated { transaction: copy });
        assert(event_views(events@) =~= seq![AppEventView::TransactionUpdated { transaction }]);
        self.events.broadcast_all(&events);
        events
    }

    /// Stores a transaction under its identifier and announces it.
    pub fn update_transaction(&mut self, transaction: Transaction) -> (events: Vec<AppEvent>)
        ensures
            final(self).events.has_published(&old(self).events, events@),
            final(self).ledger.transactions@ == with_stored(
                old(self).ledger.transactions@,
                transaction,
            ),
            final(self).ledger.session_transactions@ == old(self).ledger.session_transactions@,
            event_views(events@) == seq![AppEventView::TransactionUpdated { transaction }],
            final(self).marketplace == old(self).marketplace,
            final(self).auctions == old(self).auctions,
            final(self).game == old(self).game,
            final(self).sessions == old(self).sessions,
            old(self).ledger.wf() ==> final(self).ledger.wf(),
    {
        let copy = transaction.clone();
        self.ledger.store(transaction);
        let mut events: Vec<AppEvent> = Vec::new();
        events.push(AppEvent::TransactionUpdated { transaction: copy });
        assert(event_views(events@) =~= seq![AppEventView::TransactionUpdated { transaction }]);
        self.events.broadcast_all(&events);
        events
    }

    /// The stored transactions among those listed for `session_id`, in the
    /// order in which they were added.
    pub fn get_session_transactions(&self, session_id: &str) -> (transactions: Vec<Transaction>)
        ensures
            transactions@ == self.ledger.of_session(session_id@),
    {
        self.ledger.of_session_all(session_id)
    }

    /// The stored transactions among those listed for `session_id` from
    /// place `offset` on, `limit` places far.
    pub fn get_session_transactions_paginated(&self, session_id: &str, offset: u64, limit: u32) -> (page:
        Vec<Transaction>)
        ensures
            page@ == lookups(
                self.ledger.transactions@,
                listed(self.ledger.session_transactions@, session_id@),
                offset as int,
                page_end(
                    listed(self.ledger.session_transactions@, session_id@).len() as int,
                    offset as int,
                    limit as int,
                ),
            ),
    {
        self.ledger.of_session_paginated(session_id, offset, limit)
    }

    /// Number of transactions listed for `session_id`.
    pub fn get_session_transaction_count(&self, session_id: &str) -> (count: usize)
        ensures
            count == listed(self.ledger.session_transactions@, session_id@).len(),
    {
        self.ledger.session_count(session_id)
    }

    /// The transaction stored under `transaction_id`, if there is one.
    pub fn get_transaction(&self, transaction_id: &str) -> (transaction: Option<Transaction>)
        ensures
            transaction == stored(self.ledger.transactions@, transaction_id@),
    {
        self.ledger.get(transaction_id)
    }

    /// The transactions from place `offset` on, `limit` places far, of all
    /// the transactions ranked from the newest to the oldest.
    pub fn get_all_transactions_paginated(&self, offset: u64, limit: u32) -> (page: Vec<Transaction>)
        ensures
            is_page_of_newest(page@, self.ledger.transactions@, offset as int, limit as int),
    {
        self.ledger.all_paginated(offset, limit)
    }

    /// Number of stored transactions.
    pub fn get_total_transaction_count(&self) -> (count: usize)
        ensures
            count == self.ledger.transactions@.len(),
    {
        self.ledger.total_count()
    }

    /// The ten best players by auctions won, by balance and by win rate.
    pub fn get_leaderboard(&self) -> (board: Leaderboard)
        requires
            have_display_names(self.game.players()),
        ensures
            is_top(
                board.top_by_wins@,
                self.game.players(),
                all_places(self.game.players().len()),
                win_scores(self.game.players()),
            ),
            is_top(
                board.top_by_balance@,
                self.game.players(),
                all_places(self.game.players().len()),
                balance_scores(self.game.players()),
            ),
            is_top(
                board.top_by_winrate@,
                self.game.players(),
                rated_places(self.game.players()),
                rate_scores(self.game.players(), rated_places(self.game.players())),
            ),
    {
        self.game.generate_leaderboard()
    }

    /// Moves to the next slot at the time `now`; the slot that enters the
    /// window is priced at `edge_fee`. Publishes the new current slot, the
    /// listing of the window and the counts.
    pub fn advance_slot_with(&mut self, now: i64, edge_fee: u64) -> (result: (u64, Vec<AppEvent>))
        requires
            old(self).marketplace.current_slot + WINDOW_SIZE <= u64::MAX,
            window_times_fit(now, old(self).marketplace.slot_duration_ms),
        ensures
            final(self).events.has_published(&old(self).events, result.1@),
            result.0 == old(self).marketplace.current_slot + 1,
            final(self).marketplace@ == old(self).marketplace@.advanced(now, edge_fee),
            event_views(result.1@) == slot_events(final(self).marketplace@, final(self).stats()),
            final(self).auctions == old(self).auctions,
            final(self).same_books(old(self)),
            old(self).marketplace@.wf() && old(self).marketplace.current_slot + WINDOW_SIZE
                < u64::MAX ==> final(self).marketplace@.wf(),
    {
        self.marketplace.advance_slot_with(now, edge_fee);
        let current_slot = self.marketplace.current_slot;
        let mut events: Vec<AppEvent> = Vec::new();
        events.push(AppEvent::SlotAdvanced { current_slot });
        let slots = self.marketplace.get_window(current_slot, LISTING_DEPTH);
        events.push(AppEvent::SlotsUpdated { slots });
        let ghost listed = events@;
        self.events.broadcast_all(&events);
        let ghost told = self.events;
        let stats = self.broadcast_stats();
        events.push(stats);
        proof {
            lemma_published_on(old(self).events, told, self.events, listed, seq![stats]);
            assert(events@ =~= listed + seq![stats]);
        }
        assert(event_views(events@) =~= slot_events(self.marketplace@, self.stats()));
        (current_slot, events)
    }

    /// Moves to the next slot now.
    pub fn advance_slot(&mut self) -> (result: (u64, Vec<AppEvent>))
        requires
            old(self).marketplace.current_slot + WINDOW_SIZE <= u64::MAX,
            settings_fit(old(self).marketplace.slot_duration_ms, old(self).marketplace.base_fee),
        ensures
            final(self).events.has_published(&old(self).events, result.1@),
            result.0 == old(self).marketplace.current_slot + 1,
            exists|now: i64, edge_fee: u64|
                is_clock_reading(now) && is_fee_draw(old(self).marketplace.base_fee, edge_fee)
                    && final(self).marketplace@ == #[trigger] old(self).marketplace@.advanced(
                    now,
                    edge_fee,
                ),
            event_views(result.1@) == slot_events(final(self).marketplace@, final(self).stats()),
            final(self).auctions == old(self).auctions,
            final(self).same_books(old(self)),
            old(self).marketplace@.wf() && old(self).marketplace.current_slot + WINDOW_SIZE
                < u64::MAX ==> final(self).marketplace@.wf(),
    {
        let now = now_millis();
        let edge_fee = calculate_base_fee(self.marketplace.base_fee);
        self.advance_slot_with(now, edge_fee)
    }

    /// Opens a JIT auction for the slot at the time `now` and announces it.
    pub fn start_jit_auction_at(&mut self, slot_number: u64, base_fee: u64, now: i64) -> (result: (
        Result<(), AuctionError>,
        Vec<AppEvent>,
    ))
        requires
            jit_min_bid(base_fee as int) <= u64::MAX,
        ensures
            final(self).events.has_published(&old(self).events, result.1@),
            final(self).auctions.aot() == old(self).auctions.aot(),
            old(self).auctions.jit().contains_key(slot_number) ==> result.0 == Err::<
                (),
                AuctionError,
            >(AuctionError::AlreadyExists) && final(self).auctions.jit() == old(self).auctions.jit()
                && result.1@.len() == 0,
            !old(self).auctions.jit().contains_key(slot_number) ==> result.0 == Ok::<
                (),
                AuctionError,
            >(()) && final(self).auctions.jit() == old(self).auctions.jit().insert(
                slot_number,
                JitAuction::opened(slot_number, base_fee, now),
            ) && event_views(result.1@) == seq![
                AppEventView::JitAuctionStarted {
                    slot_number,
                    min_bid: jit_min_bid(base_fee as int) as u64,
                },
            ],
            final(self).marketplace == old(self).marketplace,
            final(self).same_books(old(self)),
            old(self).auctions.wf() ==> final(self).auctions.wf(),
    {
        let result = self.auctions.start_jit_auction_at(slot_number, base_fee, now);
        let mut events: Vec<AppEvent> = Vec::new();
        if result.is_ok() {
            assert(base_fee as int * 105 / 100 == base_fee + base_fee as int / 20)
                by (nonlinear_arith);
            events.push(AppEvent::JitAuctionStarted { slot_number, min_bid: base_fee + base_fee / 20 });
            assert(event_views(events@) =~= seq![
                AppEventView::JitAuctionStarted {
                    slot_number,
                    min_bid: jit_min_bid(base_fee as int) as u64,
                },
            ]);
        }
        self.events.broadcast_all(&events);
        (result, events)
    }

    /// Opens a JIT auction for the slot now and announces it.
    pub fn start_jit_auction(&mut self, slot_number: u64, base_fee: u64) -> (result: (
        Result<(), AuctionError>,
        Vec<AppEvent>,
    ))
        requires
            jit_min_bid(base_fee as int) <= u64::MAX,
        ensures
            final(self).events.has_published(&old(self).events, result.1@),
            final(self).auctions.aot() == old(self).auctions.aot(),
            old(self).auctions.jit().contains_key(slot_number) ==> result.0 == Err::<
                (),
                AuctionError,
            >(AuctionError::AlreadyExists) && final(self).auctions.jit() == old(self).auctions.jit()
                && result.1@.len() == 0,
            !old(self).auctions.jit().contains_key(slot_number) ==> result.0 == Ok::<
                (),
                AuctionError,
            >(()) && (exists|now: i64|
                is_clock_reading(now) && final(self).auctions.jit() == old(self).auctions.jit().insert(
                    slot_number,
                    #[trigger] JitAuction::opened(slot_number, base_fee, now),
                )) && event_views(result.1@) == seq![
                AppEventView::JitAuctionStarted {
                    slot_number,
                    min_bid: jit_min_bid(base_fee as int) as u64,
                },
            ],
            final(self).marketplace == old(self).marketplace,
            final(self).same_books(old(self)),
            old(self).auctions.wf() ==> final(self).auctions.wf(),
    {
        let now = now_millis();
        self.start_jit_auction_at(slot_number, base_fee, now)
    }

    /// Opens an AOT auction for the slot now, to end `duration_seconds`
    /// later, and announces it.
    pub fn start_aot_auction(&mut self, slot_number: u64, base_fee: u64, duration_seconds: i64) -> (result:
        (Result<(), AuctionError>, Vec<AppEvent>))
        requires
            -MAX_DURATION_SECONDS <= duration_seconds <= MAX_DURATION_SECONDS,
        ensures
            final(self).events.has_published(&old(self).events, result.1@),
            final(self).auctions.jit() == old(self).auctions.jit(),
            old(self).auctions.aot().contains_key(slot_number) ==> result.0 == Err::<
                (),
                AuctionError,
            >(AuctionError::AlreadyExists) && final(self).auctions.aot() == old(self).auctions.aot()
                && result.1@.len() == 0,
            !old(self).auctions.aot().contains_key(slot_number) ==> result.0 == Ok::<
                (),
                AuctionError,
            >(()) && exists|now: i64|
                is_clock_reading(now) && final(self).auctions.aot() == old(self).auctions.aot().insert(
                    slot_number,
                    #[trigger] AotAuctionView::opened(slot_number, base_fee, duration_seconds, now),
                ) && event_views(result.1@) == seq![
                    AppEventView::AotAuctionStarted {
                        slot_number,
                        min_bid: base_fee,
                        ends_at: (now + duration_seconds * 1000) as i64,
                    },
                ],
            final(self).marketplace == old(self).marketplace,
            final(self).same_books(old(self)),
            old(self).auctions.wf() ==> final(self).auctions.wf(),
    {
        let now = now_millis();
        self.start_aot_auction_at(slot_number, base_fee, duration_seconds, now)
    }

    /// Opens an AOT auction for the slot at the time `now`, to end
    /// `duration_seconds` later, and announces it.
    pub fn start_aot_auction_at(
        &mut self,
        slot_number: u64,
        base_fee: u64,
        duration_seconds: i64,
        now: i64,
    ) -> (result: (Result<(), AuctionError>, Vec<AppEvent>))
        requires
            deadline_fits(now, duration_seconds),
        ensures
            final(self).events.has_published(&old(self).events, result.1@),
            final(self).auctions.jit() == old(self).auctions.jit(),
            old(self).auctions.aot().contains_key(slot_number) ==> result.0 == Err::<
                (),
                AuctionError,
            >(AuctionError::AlreadyExists) && final(self).auctions.aot() == old(self).auctions.aot()
                && result.1@.len() == 0,
            !old(self).auctions.aot().contains_key(slot_number) ==> result.0 == Ok::<
                (),
                AuctionError,
            >(()) && final(self).auctions.aot() == old(self).auctions.aot().insert(
                slot_number,
                AotAuctionView::opened(slot_number, base_fee, duration_seconds, now),
            ) && event_views(result.1@) == seq![
                AppEventView::AotAuctionStarted {
                    slot_number,
                    min_bid: base_fee,
                    ends_at: (now + duration_seconds * 1000) as i64,
                },
            ],
            final(self).marketplace == old(self).marketplace,
            final(self).same_books(old(self)),
            old(self).auctions.wf() ==> final(self).auctions.wf(),
    {
        let result = self.auctions.start_aot_auction_at(slot_number, base_fee, duration_seconds, now);
        let mut events: Vec<AppEvent> = Vec::new();
        if result.is_ok() {
            events.push(
                AppEvent::AotAuctionStarted {
                    slot_number,
                    min_bid: base_fee,
                    ends_at: now + duration_seconds * 1000,
                },
            );
            assert(event_views(events@) =~= seq![
                AppEventView::AotAuctionStarted {
                    slot_number,
                    min_bid: base_fee,
                    ends_at: (now + duration_seconds * 1000) as i64,
                },
            ]);
        }
        self.events.broadcast_all(&events);
        (result, events)
    }

    /// Places a bid in the JIT auction of the slot and announces it if it
    /// was taken.
    pub fn submit_jit_bid(&mut self, slot_number: u64, bidder_id: String, amount: u64) -> (result: (
        Result<(), AuctionError>,
        Vec<AppEvent>,
    ))
        ensures
            final(self).events.has_published(&old(self).events, result.1@),
            final(self).auctions.aot() == old(self).auctions.aot(),
            !old(self).auctions.jit().contains_key(slot_number) ==> result.0 == Err::<
                (),
                AuctionError,
            >(AuctionError::NotFound) && final(self).auctions.jit() == old(self).auctions.jit(),
            old(self).auctions.jit().contains_key(slot_number) ==> {
                let auction = old(self).auctions.jit()[slot_number];
                &&& final(self).auctions.jit() == old(self).auctions.jit().insert(
                    slot_number,
                    auction.after_bid(bidder_id, amount),
                )
                &&& auction.accepts(amount) ==> result.0 == Ok::<(), AuctionError>(())
                &&& !auction.accepts(amount) ==> result.0 == Err::<(), AuctionError>(
                    AuctionError::BidTooLow,
                )
            },
            result.0 is Ok ==> event_views(result.1@) == seq![
                AppEventView::JitBidSubmitted { slot_number, bidder: bidder_id, amount },
            ],
            result.0 is Err ==> result.1@.len() == 0,
            final(self).marketplace == old(self).marketplace,
            final(self).same_books(old(self)),
            old(self).auctions.wf() ==> final(self).auctions.wf(),
    {
        let bidder = bidder_id.clone();
        let result = self.auctions.submit_jit_bid(slot_number, bidder_id, amount);
        let mut events: Vec<AppEvent> = Vec::new();
        if result.is_ok() {
            events.push(AppEvent::JitBidSubmitted { slot_number, bidder, amount });
            assert(event_views(events@) =~= seq![
                AppEventView::JitBidSubmitted { slot_number, bidder: bidder_id, amount },
            ]);
        }
        self.events.broadcast_all(&events);
        (result, events)
    }

    /// Places a bid at the time `now` in the AOT auction of the slot and
    /// announces it if it was taken.
    pub fn submit_aot_bid_at(
        &mut self,
        slot_number: u64,
        bidder_id: String,
        amount: u64,
        now: i64,
    ) -> (result: (Result<(), AuctionError>, Vec<AppEvent>))
        ensures
            final(self).events.has_published(&old(self).events, result.1@),
            final(self).auctions.jit() == old(self).auctions.jit(),
            !old(self).auctions.aot().contains_key(slot_number) ==> result.0 == Err::<
                (),
                AuctionError,
            >(AuctionError::NotFound) && final(self).auctions.aot() == old(self).auctions.aot(),
            old(self).auctions.aot().contains_key(slot_number) ==> {
                let auction = old(self).auctions.aot()[slot_number];
                &&& result.0 == auction.bid_outcome(amount, now)
                &&& final(self).auctions.aot() == old(self).auctions.aot().insert(
                    slot_number,
                    auction.after_bid(bidder_id, amount, now),
                )
            },
            result.0 is Ok ==> event_views(result.1@) == seq![
                AppEventView::AotBidSubmitted { slot_number, bidder: bidder_id, amount },
            ],
            result.0 is Err ==> result.1@.len() == 0,
            final(self).marketplace == old(self).marketplace,
            final(self).same_books(old(self)),
            old(self).auctions.wf() ==> final(self).auctions.wf(),
    {
        let bidder = bidder_id.clone();
        let result = self.auctions.submit_aot_bid_at(slot_number, bidder_id, amount, now);
        let mut events: Vec<AppEvent> = Vec::new();
        if result.is_ok() {
            events.push(AppEvent::AotBidSubmitted { slot_number, bidder, amount });
            assert(event_views(events@) =~= seq![
                AppEventView::AotBidSubmitted { slot_number, bidder: bidder_id, amount },
            ]);
        }
        self.events.broadcast_all(&events);
        (result, events)
    }

    /// Places a bid now in the AOT auction of the slot and announces it if
    /// it was taken.
    pub fn submit_aot_bid(&mut self, slot_number: u64, bidder_id: String, amount: u64) -> (result: (
        Result<(), AuctionError>,
        Vec<AppEvent>,
    ))
        ensures
            final(self).events.has_published(&old(self).events, result.1@),
            final(self).auctions.jit() == old(self).auctions.jit(),
            !old(self).auctions.aot().contains_key(slot_number) ==> result.0 == Err::<
                (),
                AuctionError,
            >(AuctionError::NotFound) && final(self).auctions.aot() == old(self).auctions.aot(),
            old(self).auctions.aot().contains_key(slot_number) ==> exists|now: i64|
                {
                    &&& is_clock_reading(now)
                    &&& result.0 == #[trigger] old(self).auctions.aot()[slot_number].bid_outcome(
                        amount,
                        now,
                    )
                    &&& final(self).auctions.aot() == old(self).auctions.aot().insert(
                        slot_number,
                        old(self).auctions.aot()[slot_number].after_bid(bidder_id, amount, now),
                    )
                },
            result.0 is Ok ==> event_views(result.1@) == seq![
                AppEventView::AotBidSubmitted { slot_number, bidder: bidder_id, amount },
            ],
            result.0 is Err ==> result.1@.len() == 0,
            final(self).marketplace == old(self).marketplace,
            final(self).same_books(old(self)),
            old(self).auctions.wf() ==> final(self).auctions.wf(),
    {
        let now = now_millis();
        self.submit_aot_bid_at(slot_number, bidder_id, amount, now)
    }

    /// Closes the JIT auction of the slot and announces its winner, if it
    /// has one.
    pub fn resolve_jit_auction(&mut self, slot_number: u64) -> (result: (
        Option<(String, u64)>,
        Vec<AppEvent>,
    ))
        ensures
            final(self).events.has_published(&old(self).events, result.1@),
            final(self).auctions.aot() == old(self).auctions.aot(),
            final(self).auctions.jit() == old(self).auctions.jit().remove(slot_number),
            result.0 == jit_winner_of(old(self).auctions.jit(), slot_number),
            event_views(result.1@) == jit_resolution_events(slot_number, result.0),
            final(self).marketplace == old(self).marketplace,
            final(self).same_books(old(self)),
            old(self).auctions.wf() ==> final(self).auctions.wf(),
    {
        let winner = self.auctions.resolve_jit(slot_number);
        let mut events: Vec<AppEvent> = Vec::new();
        match &winner {
            Some((bidder, amount)) => {
                events.push(
                    AppEvent::JitAuctionResolved {
                        slot_number,
                        winner: bidder.clone(),
                        winning_bid: *amount,
                    },
                );
                assert(event_views(events@) =~= jit_resolution_events(slot_number, winner));
            },
            None => {
                assert(event_views(events@) =~= jit_resolution_events(slot_number, winner));
            },
        }
        self.events.broadcast_all(&events);
        (winner, events)
    }

    /// Closes every AOT auction that is due at `now` and announces the
    /// winner of each that has one.
    pub fn resolve_ready_aot_auctions_at(&mut self, current_slot: u64, now: i64) -> (result: (
        Vec<AotResolution>,
        Vec<AppEvent>,
    ))
        ensures
            final(self).events.has_published(&old(self).events, result.1@),
            final(self).auctions.jit() == old(self).auctions.jit(),
            final(self).auctions.aot() == still_open(old(self).auctions.aot(), current_slot, now),
            resolves_due(result.0@, old(self).auctions.aot(), current_slot, now),
            event_views(result.1@) == aot_resolution_events(result.0@),
            final(self).marketplace == old(self).marketplace,
            final(self).same_books(old(self)),
            old(self).auctions.wf() ==> final(self).auctions.wf(),
    {
        let resolved = self.auctions.resolve_ready_aot_at(current_slot, now);
        let mut events: Vec<AppEvent> = Vec::new();
        let mut i: usize = 0;
        while i < resolved.len()
            invariant
                i <= resolved.len(),
                event_views(events@) == aot_resolution_events(resolved@.take(i as int)),
            decreases resolved.len() - i,
        {
            let ghost held = events@;
            let entry = &resolved[i];
            let event = AppEvent::AotAuctionResolved {
                slot_number: entry.0,
                winner: entry.1.clone(),
                winning_bid: entry.2,
            };
            events.push(event);
            assert(event_views(events@) =~= event_views(held).push(event@));
            assert(aot_resolution_events(resolved@.take(i + 1)) =~= aot_resolution_events(
                resolved@.take(i as int),
            ).push(event@));
            i += 1;
        }
        assert(resolved@.take(i as int) == resolved@);
        self.events.broadcast_all(&events);
        (resolved, events)
    }

    /// Closes every AOT auction that is due now.
    pub fn resolve_ready_aot_auctions(&mut self, current_slot: u64) -> (result: (
        Vec<AotResolution>,
        Vec<AppEvent>,
    ))
        ensures
            final(self).events.has_published(&old(self).events, result.1@),
            final(self).auctions.jit() == old(self).auctions.jit(),
            exists|now: i64|
                is_clock_reading(now) && final(self).auctions.aot() == #[trigger] still_open(
                    old(self).auctions.aot(),
                    current_slot,
                    now,
                ) && resolves_due(result.0@, old(self).auctions.aot(), current_slot, now),
            event_views(result.1@) == aot_resolution_events(result.0@),
            final(self).marketplace == old(self).marketplace,
            final(self).same_books(old(self)),
            old(self).auctions.wf() ==> final(self).auctions.wf(),
    {
        let now = now_millis();
        self.resolve_ready_aot_auctions_at(current_slot, now)
    }
}

/// The events of a tick that leaves the marketplace `advanced` and resolves
/// `jit_winner` and `resolved`.
pub open spec fn tick_events(
    advanced: SlotMarketplaceView,
    stats: MarketplaceStats,
    jit_winner: Option<(String, u64)>,
    resolved: Seq<AotResolution>,
) -> Seq<AppEventView> {
    slot_events(advanced, stats) + jit_resolution_events(advanced.current_slot, jit_winner)
        + aot_resolution_events(resolved)
}

/// Showing a bid on a slot, reserving it or filling it keeps the slot
/// window well formed.
pub proof fn lemma_with_slot_wf(marketplace: SlotMarketplaceView, number: u64, slot: crate::models::slot::SlotView)
    requires
        marketplace.wf(),
        slot.slot_number == number,
    ensures
        marketplace.with_slot(number, slot).wf(),
{
    let after = marketplace.with_slot(number, slot);
    assert forall|other: u64| after.slots.contains_key(other) <==> other < after.current_slot
        + WINDOW_SIZE by {
        assert(marketplace.slots.contains_key(other) <==> other < marketplace.current_slot
            + WINDOW_SIZE);
    }
}

/// Reserving slots keeps the slot window well formed.
pub proof fn lemma_reservations_wf(marketplace: SlotMarketplaceView, resolved: Seq<AotResolution>)
    requires
        marketplace.wf(),
    ensures
        marketplace.with_reservations(resolved).wf(),
    decreases resolved.len(),
{
    if resolved.len() > 0 {
        lemma_reservations_wf(marketplace, resolved.drop_last());
        let before = marketplace.with_reservations(resolved.drop_last());
        let entry = resolved.last();
        if before.slots.contains_key(entry.0) {
            lemma_with_slot_wf(
                before,
                entry.0,
                before.slots[entry.0].reserved(entry.1, entry.2, TransactionType::Aot),
            );
        }
    }
}

impl AppState {
    /// One tick at the time `now`: moves to the next slot, closes the JIT
    /// auction for it and every AOT auction that is due, and shows the
    /// winners on their slots. The slot of the JIT winner is reserved and
    /// then filled; the slot of an AOT winner is reserved. The slot that
    /// enters the window is priced at `edge_fee`.
    ///
    /// When no auction is due, the tick changes the slot window only, as a
    /// move to the next slot does, and publishes no resolution.
    pub fn tick_with(&mut self, now: i64, edge_fee: u64) -> (report: TickReport)
        requires
            old(self).marketplace.current_slot + WINDOW_SIZE <= u64::MAX,
            window_times_fit(now, old(self).marketplace.slot_duration_ms),
        ensures
            final(self).events.has_published(&old(self).events, report.events@),
            report.current_slot == old(self).marketplace.current_slot + 1,
            final(self).auctions.jit() == old(self).auctions.jit().remove(report.current_slot),
            final(self).auctions.aot() == still_open(
                old(self).auctions.aot(),
                report.current_slot,
                now,
            ),
            report.jit_winner == jit_winner_of(old(self).auctions.jit(), report.current_slot),
            resolves_due(report.aot_resolved@, old(self).auctions.aot(), report.current_slot, now),
            exists|reference: String|
                is_fill_reference(report.current_slot, reference) && final(self).marketplace@
                    == #[trigger] old(self).marketplace@.ticked(
                    now,
                    edge_fee,
                    report.jit_winner,
                    reference,
                    report.aot_resolved@,
                ),
            event_views(report.events@) == tick_events(
                old(self).marketplace@.advanced(now, edge_fee),
                stats_of(
                    report.current_slot,
                    old(self).marketplace@.advanced(now, edge_fee).slots.len(),
                    old(self).auctions.jit().len(),
                    old(self).auctions.aot().len(),
                    old(self).ledger.transactions@.len(),
                ),
                report.jit_winner,
                report.aot_resolved@,
            ),
            final(self).same_books(old(self)),
            !auction_due(
                old(self).auctions.jit(),
                old(self).auctions.aot(),
                report.current_slot,
                now,
            ) ==> {
                &&& final(self).same_auctions(old(self))
                &&& final(self).marketplace@ == old(self).marketplace@.advanced(now, edge_fee)
                &&& report.jit_winner is None
                &&& report.aot_resolved@.len() == 0
                &&& report.events@.len() == 3
                &&& forall|i: int|
                    0 <= i < report.events@.len() ==> !(#[trigger] event_views(
                        report.events@,
                    )[i]).is_resolution()
            },
            old(self).auctions.wf() ==> final(self).auctions.wf(),
            old(self).marketplace@.wf() && old(self).marketplace.current_slot + WINDOW_SIZE
                < u64::MAX ==> final(self).marketplace@.wf(),
    {
        let ghost jit = self.auctions.jit();
        let ghost aot = self.auctions.aot();
        let (current_slot, mut events) = self.advance_slot_with(now, edge_fee);
        let ghost advanced = self.marketplace@;
        let ghost first_events = event_views(events@);
        let ghost first = events@;
        let ghost moved = self.events;
        let (jit_winner, mut jit_events) = self.resolve_jit_auction(current_slot);
        let ghost second_events = event_views(jit_events@);
        let ghost second = jit_events@;
        let ghost sold = self.events;
        events.append(&mut jit_events);
        assert(event_views(events@) =~= first_events + second_events);
        proof {
            lemma_published_on(old(self).events, moved, sold, first, second);
        }
        let reference = fill_reference(current_slot);
        match &jit_winner {
            Some((winner, winning_bid)) => {
                self.marketplace.reserve_slot(
                    current_slot,
                    winner.clone(),
                    *winning_bid,
                    TransactionType::Jit,
                );
                self.marketplace.fill_slot_at(
                    current_slot,
                    winner.clone(),
                    reference.clone(),
                    JIT_FILL_UNITS,
                    now,
                );
            },
            None => {},
        }
        let ghost shown = self.marketplace@;
        let ghost leader = jit_winner;
        assert(shown == advanced.with_jit_winner(jit_winner, reference, now));
        let (aot_resolved, mut aot_events) = self.resolve_ready_aot_auctions_at(current_slot, now);
        let ghost third_events = event_views(aot_events@);
        let ghost third = aot_events@;
        let ghost told = self.events;
        events.append(&mut aot_events);
        assert(event_views(events@) =~= first_events + second_events + third_events);
        proof {
            lemma_published_on(old(self).events, sold, told, first + second, third);
        }
        let mut i: usize = 0;
        while i < aot_resolved.len()
            invariant
                i <= aot_resolved.len(),
                self.events == told,
                self.marketplace@ == shown.with_reservations(aot_resolved@.take(i as int)),
                self.auctions.jit() == jit.remove(current_slot),
                self.auctions.aot() == still_open(aot, current_slot, now),
                self.same_books(old(self)),
                old(self).auctions.wf() ==> self.auctions.wf(),
            decreases aot_resolved.len() - i,
        {
            let entry = &aot_resolved[i];
            let ghost next = aot_resolved@.take(i + 1);
            assert(next.drop_last() == aot_resolved@.take(i as int));
            assert(next.last() == aot_resolved@[i as int]);
            self.marketplace.reserve_slot(entry.0, entry.1.clone(), entry.2, TransactionType::Aot);
            i += 1;
        }
        proof {
            assert(aot_resolved@.take(i as int) == aot_resolved@);
            assert(self.marketplace@ == old(self).marketplace@.ticked(
                now,
                edge_fee,
                jit_winner,
                reference,
                aot_resolved@,
            ));
            if !auction_due(jit, aot, current_slot, now) {
                assert(jit.remove(current_slot) =~= jit);
                if aot_resolved@.len() > 0 {
                    let entry = aot_resolved@[0];
                    assert(aot.contains_key(entry.0) && aot[entry.0].due_at(current_slot, now));
                }
                assert(still_open(aot, current_slot, now) =~= aot);
                assert(events@.len() == 3);
            }
            if old(self).marketplace@.wf() && old(self).marketplace.current_slot + WINDOW_SIZE
                < u64::MAX {
                match leader {
                    Some((winner, winning_bid)) => {
                        let reserved = advanced.slots[current_slot].reserved(
                            winner,
                            winning_bid,
                            TransactionType::Jit,
                        );
                        lemma_with_slot_wf(advanced, current_slot, reserved);
                        let held = advanced.with_slot(current_slot, reserved);
                        lemma_with_slot_wf(
                            held,
                            current_slot,
                            held.slots[current_slot].filled(winner, reference, JIT_FILL_UNITS, now),
                        );
                    },
                    None => {},
                }
                lemma_reservations_wf(shown, aot_resolved@);
            }
        }
        let report = TickReport { current_slot, jit_winner, aot_resolved, events };
        assert(is_fill_reference(report.current_slot, reference));
        assert(self.marketplace@ == old(self).marketplace@.ticked(
            now,
            edge_fee,
            report.jit_winner,
            reference,
            report.aot_resolved@,
        ));
        report
    }

    /// Whether a tick can be made: the window can move on, and the settings
    /// are within what a marketplace accepts.
    pub fn can_tick(&self) -> (ready: bool)
        ensures
            ready == (self.marketplace.current_slot + WINDOW_SIZE <= u64::MAX && settings_fit(
                self.marketplace.slot_duration_ms,
                self.marketplace.base_fee,
            )),
    {
        self.marketplace.current_slot <= u64::MAX - WINDOW_SIZE
            && -crate::MAX_SLOT_DURATION_MS <= self.marketplace.slot_duration_ms
            && self.marketplace.slot_duration_ms <= crate::MAX_SLOT_DURATION_MS
            && self.marketplace.base_fee <= crate::MAX_BASE_FEE
    }

    /// One tick now.
    pub fn tick(&mut self) -> (report: TickReport)
        requires
            old(self).marketplace.current_slot + WINDOW_SIZE <= u64::MAX,
            settings_fit(old(self).marketplace.slot_duration_ms, old(self).marketplace.base_fee),
        ensures
            final(self).events.has_published(&old(self).events, report.events@),
            report.current_slot == old(self).marketplace.current_slot + 1,
            final(self).auctions.jit() == old(self).auctions.jit().remove(report.current_slot),
            report.jit_winner == jit_winner_of(old(self).auctions.jit(), report.current_slot),
            exists|now: i64, edge_fee: u64, reference: String|
                {
                    &&& is_clock_reading(now)
                    &&& is_fee_draw(old(self).marketplace.base_fee, edge_fee)
                    &&& is_fill_reference(report.current_slot, reference)
                    &&& final(self).marketplace@ == #[trigger] old(self).marketplace@.ticked(
                        now,
                        edge_fee,
                        report.jit_winner,
                        reference,
                        report.aot_resolved@,
                    )
                    &&& final(self).auctions.aot() == still_open(
                        old(self).auctions.aot(),
                        report.current_slot,
                        now,
                    )
                    &&& resolves_due(
                        report.aot_resolved@,
                        old(self).auctions.aot(),
                        report.current_slot,
                        now,
                    )
                    &&& event_views(report.events@) == tick_events(
                        old(self).marketplace@.advanced(now, edge_fee),
                        stats_of(
                            report.current_slot,
                            old(self).marketplace@.advanced(now, edge_fee).slots.len(),
                            old(self).auctions.jit().len(),
                            old(self).auctions.aot().len(),
                            old(self).ledger.transactions@.len(),
                        ),
                        report.jit_winner,
                        report.aot_resolved@,
                    )
                    &&& !auction_due(
                        old(self).auctions.jit(),
                        old(self).auctions.aot(),
                        report.current_slot,
                        now,
                    ) ==> final(self).same_auctions(old(self)) && report.events@.len() == 3
                        && final(self).marketplace@ == old(self).marketplace@.advanced(now, edge_fee)
                },
            final(self).same_books(old(self)),
            old(self).auctions.wf() ==> final(self).auctions.wf(),
            old(self).marketplace@.wf() && old(self).marketplace.current_slot + WINDOW_SIZE
                < u64::MAX ==> final(self).marketplace@.wf(),
    {
        let now = now_millis();
        let edge_fee = calculate_base_fee(self.marketplace.base_fee);
        let report = self.tick_with(now, edge_fee);
        proof {
            let reference = choose|reference: String|
                is_fill_reference(report.current_slot, reference) && self.marketplace@
                    == #[trigger] old(self).marketplace@.ticked(
                    now,
                    edge_fee,
                    report.jit_winner,
                    reference,
                    report.aot_resolved@,
                );
            assert(self.marketplace@ == old(self).marketplace@.ticked(
                now,
                edge_fee,
                report.jit_winner,
                reference,
                report.aot_resolved@,
            ));
        }
        report
    }
}

/// Why a transaction could not be submitted.
#[derive(Clone, Copy, Debug, PartialEq, Eq, Structural)]
pub enum SubmitError {
    /// The requested slot lies behind the current slot.
    InvalidSlot,
    /// The balance does not cover the bid.
    InsufficientBalance,
    /// The player's counters cannot take the bid.
    PaymentFailed,
    /// The transaction asks for more compute units than a slot offers.
    ComputeUnitsExceeded,
    /// The auction refused the bid.
    BidRejected(AuctionError),
    /// No auction is open for the slot and none could be opened: its
    /// minimum bid or its deadline is more than a number holds.
    AuctionNotStarted,
}

impl SubmitError {
    /// The HTTP status that reports the error.
    pub fn status_code(&self) -> (code: u16)
        ensures
            code == match *self {
                SubmitError::InvalidSlot => 400u16,
                SubmitError::InsufficientBalance => 402u16,
                SubmitError::PaymentFailed => 402u16,
                SubmitError::ComputeUnitsExceeded => 400u16,
                SubmitError::BidRejected(_) => 400u16,
                SubmitError::AuctionNotStarted => 500u16,
            },
    {
        match self {
            SubmitError::InvalidSlot => 400,
            SubmitError::InsufficientBalance => 402,
            SubmitError::PaymentFailed => 402,
            SubmitError::ComputeUnitsExceeded => 400,
            SubmitError::BidRejected(_) => 400,
            SubmitError::AuctionNotStarted => 500,
        }
    }
}

/// What the submitter is told of an accepted transaction.
#[derive(Debug, PartialEq, Eq)]
pub struct SubmitReceipt {
    pub transaction_id: String,
    pub slot_number: u64,
    pub bid_amount: u64,
}

/// The error that stands for a failed payment.
pub open spec fn payment_error(error: PaymentError) -> SubmitError {
    match error {
        PaymentError::InsufficientBalance => SubmitError::InsufficientBalance,
        PaymentError::PaymentFailed => SubmitError::PaymentFailed,
    }
}

/// The JIT auctions once one is open for `slot_number`: a new one is opened
/// at `now` if there was none.
pub open spec fn jit_opened(jit: Map<u64, JitAuction>, slot_number: u64, base_fee: u64, now: i64) -> Map<
    u64,
    JitAuction,
> {
    if jit.contains_key(slot_number) {
        jit
    } else {
        jit.insert(slot_number, JitAuction::opened(slot_number, base_fee, now))
    }
}

/// The events of making sure that a JIT auction is open for `slot_number`.
pub open spec fn jit_opening_events(jit: Map<u64, JitAuction>, slot_number: u64, base_fee: u64) -> Seq<
    AppEventView,
> {
    if jit.contains_key(slot_number) {
        Seq::empty()
    } else {
        seq![
            AppEventView::JitAuctionStarted {
                slot_number,
                min_bid: jit_min_bid(base_fee as int) as u64,
            },
        ]
    }
}

/// The AOT auctions once one is open for `slot_number`: a new one is opened
/// at `now` for `duration_seconds` if there was none.
pub open spec fn aot_opened(
    aot: Map<u64, AotAuctionView>,
    slot_number: u64,
    base_fee: u64,
    duration_seconds: i64,
    now: i64,
) -> Map<u64, AotAuctionView> {
    if aot.contains_key(slot_number) {
        aot
    } else {
        aot.insert(slot_number, AotAuctionView::opened(slot_number, base_fee, duration_seconds, now))
    }
}

/// The events of making sure that an AOT auction is open for `slot_number`.
pub open spec fn aot_opening_events(
    aot: Map<u64, AotAuctionView>,
    slot_number: u64,
    base_fee: u64,
    duration_seconds: i64,
    now: i64,
) -> Seq<AppEventView> {
    if aot.contains_key(slot_number) {
        Seq::empty()
    } else {
        seq![
            AppEventView::AotAuctionStarted {
                slot_number,
                min_bid: base_fee,
                ends_at: (now + duration_seconds * 1000) as i64,
            },
        ]
    }
}

/// Whether `after` and `result` are what the submission of a transaction
/// for the next slot at `now`, under the name `transaction_id`, makes of
/// `before`: the outcome, the events, the auctions, the slot window and the
/// ledger.
pub open spec fn is_jit_submission(
    before: AppState,
    after: AppState,
    result: (Result<SubmitReceipt, SubmitError>, Vec<AppEvent>),
    session_id: String,
    bid_amount: u64,
    compute_units: u64,
    data: String,
    base_fee: u64,
    transaction_id: String,
    now: i64,
) -> bool {
    let slot_number = (before.marketplace.current_slot + 1) as u64;
    let record = roster_with(before.game.players(), session_id)[position(
        before.game.players(),
        session_id@,
    )];
    let opened = jit_opened(before.auctions.jit(), slot_number, base_fee, now);
    let opening = jit_opening_events(before.auctions.jit(), slot_number, base_fee);
    let transaction = Transaction::pending(
        transaction_id,
        session_id,
        InclusionType::Jit,
        compute_units,
        bid_amount,
        data,
        now,
    );
    if payment_outcome(record, bid_amount) is Err {
        &&& result.0 == Err::<SubmitReceipt, SubmitError>(
            payment_error(payment_outcome(record, bid_amount)->Err_0),
        )
        &&& result.1@.len() == 0
        &&& after.auctions.jit() == before.auctions.jit()
        &&& after.marketplace@ == before.marketplace@
        &&& after.ledger == before.ledger
    } else if compute_units > MAX_COMPUTE_UNITS_PER_SLOT {
        &&& result.0 == Err::<SubmitReceipt, SubmitError>(
            SubmitError::ComputeUnitsExceeded,
        )
        &&& result.1@.len() == 0
        &&& after.auctions.jit() == before.auctions.jit()
        &&& after.marketplace@ == before.marketplace@
        &&& after.ledger == before.ledger
    } else if !before.auctions.jit().contains_key(slot_number) && jit_min_bid(base_fee as int)
        > u64::MAX {
        &&& result.0 == Err::<SubmitReceipt, SubmitError>(SubmitError::AuctionNotStarted)
        &&& result.1@.len() == 0
        &&& after.auctions.jit() == before.auctions.jit()
        &&& after.marketplace@ == before.marketplace@
        &&& after.ledger == before.ledger
    } else if !opened[slot_number].accepts(bid_amount) {
        &&& result.0 == Err::<SubmitReceipt, SubmitError>(
            SubmitError::BidRejected(AuctionError::BidTooLow),
        )
        &&& event_views(result.1@) == opening
        &&& after.auctions.jit() == opened
        &&& after.marketplace@ == before.marketplace@
        &&& after.ledger == before.ledger
    } else {
        &&& result.0 == Ok::<SubmitReceipt, SubmitError>(
            SubmitReceipt { transaction_id, slot_number, bid_amount },
        )
        &&& event_views(result.1@) == opening + seq![
            AppEventView::JitBidSubmitted {
                slot_number,
                bidder: session_id,
                amount: bid_amount,
            },
            AppEventView::TransactionUpdated { transaction },
        ]
        &&& after.auctions.jit() == opened.insert(
            slot_number,
            opened[slot_number].after_bid(session_id, bid_amount),
        )
        &&& after.marketplace@ == before.marketplace@.showing_jit_bid(
            slot_number,
            session_id,
            bid_amount,
        )
        &&& after.ledger.transactions@ == with_stored(
            before.ledger.transactions@,
            transaction,
        )
        &&& listed(after.ledger.session_transactions@, session_id@) == listed(
            before.ledger.session_transactions@,
            session_id@,
        ).push(transaction_id@)
    }
}

/// Whether `after` and `result` are what the submission of a transaction
/// for the slot `slot_number`, which does not lie behind the current one,
/// at `now` and under the name `transaction_id`, makes of `before`: the
/// outcome, the events, the auctions, the slot window and the ledger.
pub open spec fn is_aot_submission(
    before: AppState,
    after: AppState,
    result: (Result<SubmitReceipt, SubmitError>, Vec<AppEvent>),
    session_id: String,
    slot_number: u64,
    bid_amount: u64,
    compute_units: u64,
    data: String,
    base_fee: u64,
    duration_seconds: i64,
    transaction_id: String,
    now: i64,
) -> bool {
    let record = roster_with(before.game.players(), session_id)[position(
        before.game.players(),
        session_id@,
    )];
    let opened = aot_opened(
        before.auctions.aot(),
        slot_number,
        base_fee,
        duration_seconds,
        now,
    );
    let opening = aot_opening_events(
        before.auctions.aot(),
        slot_number,
        base_fee,
        duration_seconds,
        now,
    );
    let transaction = Transaction::pending(
        transaction_id,
        session_id,
        InclusionType::Aot { reserved_slot: slot_number },
        compute_units,
        bid_amount,
        data,
        now,
    );
    if payment_outcome(record, bid_amount) is Err {
        &&& result.0 == Err::<SubmitReceipt, SubmitError>(
            payment_error(payment_outcome(record, bid_amount)->Err_0),
        )
        &&& result.1@.len() == 0
        &&& after.auctions.aot() == before.auctions.aot()
        &&& after.marketplace@ == before.marketplace@
        &&& after.ledger == before.ledger
    } else if compute_units > MAX_COMPUTE_UNITS_PER_SLOT {
        &&& result.0 == Err::<SubmitReceipt, SubmitError>(
            SubmitError::ComputeUnitsExceeded,
        )
        &&& result.1@.len() == 0
        &&& after.auctions.aot() == before.auctions.aot()
        &&& after.marketplace@ == before.marketplace@
        &&& after.ledger == before.ledger
    } else if !before.auctions.aot().contains_key(slot_number) && !deadline_fits(
        now,
        duration_seconds,
    ) {
        &&& result.0 == Err::<SubmitReceipt, SubmitError>(SubmitError::AuctionNotStarted)
        &&& result.1@.len() == 0
        &&& after.auctions.aot() == before.auctions.aot()
        &&& after.marketplace@ == before.marketplace@
        &&& after.ledger == before.ledger
    } else if opened[slot_number].bid_outcome(bid_amount, now) is Err {
        &&& result.0 == Err::<SubmitReceipt, SubmitError>(
            SubmitError::BidRejected(
                opened[slot_number].bid_outcome(bid_amount, now)->Err_0,
            ),
        )
        &&& event_views(result.1@) == opening
        &&& after.auctions.aot() == opened
        &&& after.marketplace@ == before.marketplace@
        &&& after.ledger == before.ledger
    } else {
        &&& result.0 == Ok::<SubmitReceipt, SubmitError>(
            SubmitReceipt { transaction_id, slot_number, bid_amount },
        )
        &&& event_views(result.1@) == opening + seq![
            AppEventView::AotBidSubmitted {
                slot_number,
                bidder: session_id,
                amount: bid_amount,
            },
            AppEventView::TransactionUpdated { transaction },
        ]
        &&& after.auctions.aot() == opened.insert(
            slot_number,
            opened[slot_number].after_bid(session_id, bid_amount, now),
        )
        &&& after.marketplace@ == before.marketplace@.showing_aot_bid(
            slot_number,
            session_id,
            bid_amount,
            bid_pairs(opened[slot_number].after_bid(session_id, bid_amount, now).bids),
            opened[slot_number].ends_at,
        )
        &&& after.ledger.transactions@ == with_stored(
            before.ledger.transactions@,
            transaction,
        )
        &&& listed(after.ledger.session_transactions@, session_id@) == listed(
            before.ledger.session_transactions@,
            session_id@,
        ).push(transaction_id@)
    }
}

impl AppState {
    /// Submits a transaction for the next slot at the time `now`, under the
    /// name `transaction_id`.
    ///
    /// The steps, in their order: the player pays the bid; the compute units
    /// are checked against what a slot offers; a JIT auction is opened for
    /// the slot after the current one, at `base_fee`, unless one is open
    /// (it cannot be opened where its minimum bid is more than an amount
    /// holds); the bid is placed; the bid is shown on the slot; the
    /// transaction is stored. A step that fails ends the submission, and
    /// what the steps before it did stays done: the bid stays paid.
    pub fn submit_jit_transaction_with(
        &mut self,
        session_id: String,
        bid_amount: u64,
        compute_units: u64,
        data: String,
        base_fee: u64,
        transaction_id: String,
        now: i64,
    ) -> (result: (Result<SubmitReceipt, SubmitError>, Vec<AppEvent>))
        requires
            old(self).marketplace.current_slot < u64::MAX,
        ensures
            final(self).events.has_published(&old(self).events, result.1@),
            final(self).auctions.aot() == old(self).auctions.aot(),
            final(self).game.players() == roster_after_payment(
                old(self).game.players(),
                session_id,
                bid_amount,
                (old(self).marketplace.current_slot + 1) as u64,
            ),
            is_jit_submission(
                *old(self),
                *final(self),
                result,
                session_id,
                bid_amount,
                compute_units,
                data,
                base_fee,
                transaction_id,
                now,
            ),
            old(self).auctions.wf() ==> final(self).auctions.wf(),
            old(self).game.wf() ==> final(self).game.wf(),
            old(self).ledger.wf() ==> final(self).ledger.wf(),
            old(self).marketplace@.wf() ==> final(self).marketplace@.wf(),
            final(self).sessions == old(self).sessions,
    {
        let slot_number = self.marketplace.current_slot + 1;
        let mut events: Vec<AppEvent> = Vec::new();
        let ghost jit = self.auctions.jit();
        proof {
            if self.marketplace@.wf() && self.marketplace@.slots.contains_key(slot_number) {
                lemma_with_slot_wf(
                    self.marketplace@,
                    slot_number,
                    self.marketplace@.slots[slot_number].showing_jit_bid(session_id, bid_amount),
                );
            }
        }
        match self.game.pay_for_bid(session_id.clone(), bid_amount, slot_number) {
            Err(PaymentError::InsufficientBalance) => {
                return (Err(SubmitError::InsufficientBalance), events);
            },
            Err(PaymentError::PaymentFailed) => {
                return (Err(SubmitError::PaymentFailed), events);
            },
            Ok(()) => {},
        }
        if compute_units > MAX_COMPUTE_UNITS_PER_SLOT {
            return (Err(SubmitError::ComputeUnitsExceeded), events);
        }
        proof {
            lemma_published_nothing(self.events);
        }
        if !self.auctions.has_jit_auction(slot_number) {
            if !base_fee_fits(base_fee) {
                return (Err(SubmitError::AuctionNotStarted), events);
            }
            let (_, mut opening) = self.start_jit_auction_at(slot_number, base_fee, now);
            events.append(&mut opening);
        }
        let ghost opened = self.auctions.jit();
        let ghost opening = event_views(events@);
        let ghost told = events@;
        let ghost bus = self.events;
        assert(opened == jit_opened(jit, slot_number, base_fee, now));
        assert(opening =~= jit_opening_events(jit, slot_number, base_fee));
        assert(bus.has_published(&old(self).events, told));
        let (placed, mut bidding) = self.submit_jit_bid(slot_number, session_id.clone(), bid_amount);
        let ghost bid_events = event_views(bidding@);
        let ghost bids = bidding@;
        events.append(&mut bidding);
        assert(event_views(events@) =~= opening + bid_events);
        proof {
            lemma_published_on(old(self).events, bus, self.events, told, bids);
        }
        let ghost told = events@;
        let ghost bus = self.events;
        match placed {
            Err(error) => {
                assert(self.auctions.jit() =~= opened);
                return (Err(SubmitError::BidRejected(error)), events);
            },
            Ok(()) => {},
        }
        self.marketplace.show_jit_bid(slot_number, session_id.clone(), bid_amount);
        let transaction = Transaction::jit_with(
            transaction_id.clone(),
            session_id.clone(),
            compute_units,
            bid_amount,
            data,
            now,
        );
        let mut stored = self.add_transaction(session_id, transaction);
        let ghost stored_events = event_views(stored@);
        let ghost kept = stored@;
        events.append(&mut stored);
        assert(event_views(events@) =~= opening + bid_events + stored_events);
        assert(opening + bid_events + stored_events =~= opening + seq![
            AppEventView::JitBidSubmitted { slot_number, bidder: session_id, amount: bid_amount },
            AppEventView::TransactionUpdated { transaction },
        ]);
        proof {
            lemma_published_on(old(self).events, bus, self.events, told, kept);
        }
        (Ok(SubmitReceipt { transaction_id, slot_number, bid_amount }), events)
    }

    /// Submits a transaction for the next slot now, under a new name.
    pub fn submit_jit_transaction(
        &mut self,
        session_id: String,
        bid_amount: u64,
        compute_units: u64,
        data: String,
        base_fee: u64,
    ) -> (result: (Result<SubmitReceipt, SubmitError>, Vec<AppEvent>))
        requires
            old(self).marketplace.current_slot < u64::MAX,
        ensures
            final(self).events.has_published(&old(self).events, result.1@),
            final(self).auctions.aot() == old(self).auctions.aot(),
            final(self).game.players() == roster_after_payment(
                old(self).game.players(),
                session_id,
                bid_amount,
                (old(self).marketplace.current_slot + 1) as u64,
            ),
            exists|transaction_id: String, now: i64|
                transaction_id@.len() == 36 && is_clock_reading(now) && #[trigger] is_jit_submission(
                    *old(self),
                    *final(self),
                    result,
                    session_id,
                    bid_amount,
                    compute_units,
                    data,
                    base_fee,
                    transaction_id,
                    now,
                ),
            old(self).auctions.wf() ==> final(self).auctions.wf(),
            old(self).game.wf() ==> final(self).game.wf(),
            old(self).ledger.wf() ==> final(self).ledger.wf(),
            old(self).marketplace@.wf() ==> final(self).marketplace@.wf(),
            final(self).sessions == old(self).sessions,
    {
        let transaction_id = new_id();
        let now = now_millis();
        self.submit_jit_transaction_with(
            session_id,
            bid_amount,
            compute_units,
            data,
            base_fee,
            transaction_id,
            now,
        )
    }

    /// Submits a transaction for the slot `slot_number` at the time `now`,
    /// under the name `transaction_id`.
    ///
    /// The steps, in their order: the slot must not lie behind the current
    /// one; the player pays the bid; the compute units are checked against
    /// what a slot offers; an AOT auction is opened for the slot, at
    /// `base_fee` and for `duration_seconds`, unless one is open (it cannot
    /// be opened where its deadline is more than a time holds); the bid is
    /// placed; the bid is shown on the slot; the transaction is stored. A
    /// step that fails ends the submission, and what the steps before it
    /// did stays done: the bid stays paid.
    pub fn submit_aot_transaction_with(
        &mut self,
        session_id: String,
        slot_number: u64,
        bid_amount: u64,
        compute_units: u64,
        data: String,
        base_fee: u64,
        duration_seconds: i64,
        transaction_id: String,
        now: i64,
    ) -> (result: (Result<SubmitReceipt, SubmitError>, Vec<AppEvent>))
        ensures
            final(self).events.has_published(&old(self).events, result.1@),
            final(self).auctions.jit() == old(self).auctions.jit(),
            slot_number < old(self).marketplace.current_slot ==> {
                &&& result.0 == Err::<SubmitReceipt, SubmitError>(SubmitError::InvalidSlot)
                &&& result.1@.len() == 0
                &&& final(self).game.players() == old(self).game.players()
                &&& final(self).auctions.aot() == old(self).auctions.aot()
                &&& final(self).marketplace@ == old(self).marketplace@
                &&& final(self).ledger == old(self).ledger
            },
            slot_number >= old(self).marketplace.current_slot ==> final(self).game.players()
                == roster_after_payment(old(self).game.players(), session_id, bid_amount, slot_number),
            slot_number >= old(self).marketplace.current_slot ==> is_aot_submission(
                *old(self),
                *final(self),
                result,
                session_id,
                slot_number,
                bid_amount,
                compute_units,
                data,
                base_fee,
                duration_seconds,
                transaction_id,
                now,
            ),
            old(self).auctions.wf() ==> final(self).auctions.wf(),
            old(self).game.wf() ==> final(self).game.wf(),
            old(self).ledger.wf() ==> final(self).ledger.wf(),
            old(self).marketplace@.wf() ==> final(self).marketplace@.wf(),
            final(self).sessions == old(self).sessions,
    {
        let mut events: Vec<AppEvent> = Vec::new();
        proof {
            lemma_published_nothing(self.events);
        }
        if slot_number < self.marketplace.current_slot {
            return (Err(SubmitError::InvalidSlot), events);
        }
        let ghost aot = self.auctions.aot();
        proof {
            if self.marketplace@.wf() && self.marketplace@.slots.contains_key(slot_number) {
                let ends_at = aot_opened(aot, slot_number, base_fee, duration_seconds, now)[slot_number].ends_at;
                lemma_with_slot_wf(
                    self.marketplace@,
                    slot_number,
                    self.marketplace@.slots[slot_number].showing_aot_bid(
                        session_id,
                        bid_amount,
                        bid_pairs(
                            aot_opened(
                                aot,
                                slot_number,
                                base_fee,
                                duration_seconds,
                                now,
                            )[slot_number].after_bid(session_id, bid_amount, now).bids,
                        ),
                        ends_at,
                    ),
                );
            }
        }
        match self.game.pay_for_bid(session_id.clone(), bid_amount, slot_number) {
            Err(PaymentError::InsufficientBalance) => {
                return (Err(SubmitError::InsufficientBalance), events);
            },
            Err(PaymentError::PaymentFailed) => {
                return (Err(SubmitError::PaymentFailed), events);
            },
            Ok(()) => {},
        }
        if compute_units > MAX_COMPUTE_UNITS_PER_SLOT {
            return (Err(SubmitError::ComputeUnitsExceeded), events);
        }
        if !self.auctions.has_aot_auction(slot_number) {
            if !can_end_after(now, duration_seconds) {
                return (Err(SubmitError::AuctionNotStarted), events);
            }
            let (_, mut opening) = self.start_aot_auction_at(
                slot_number,
                base_fee,
                duration_seconds,
                now,
            );
            events.append(&mut opening);
        }
        let ghost opened = self.auctions.aot();
        let ghost opening = event_views(events@);
        let ghost told = events@;
        let ghost bus = self.events;
        assert(opened == aot_opened(aot, slot_number, base_fee, duration_seconds, now));
        assert(opening =~= aot_opening_events(aot, slot_number, base_fee, duration_seconds, now));
        assert(bus.has_published(&old(self).events, told));
        let (placed, mut bidding) = self.submit_aot_bid_at(
            slot_number,
            session_id.clone(),
            bid_amount,
            now,
        );
        let ghost bid_events = event_views(bidding@);
        let ghost bids_told = bidding@;
        events.append(&mut bidding);
        assert(event_views(events@) =~= opening + bid_events);
        proof {
            lemma_published_on(old(self).events, bus, self.events, told, bids_told);
        }
        let ghost told = events@;
        let ghost bus = self.events;
        match placed {
            Err(error) => {
                assert(self.auctions.aot() =~= opened);
                return (Err(SubmitError::BidRejected(error)), events);
            },
            Ok(()) => {},
        }
        match self.auctions.aot_standing(slot_number) {
            Some((bids, ends_at)) => {
                self.marketplace.show_aot_bid(
                    slot_number,
                    session_id.clone(),
                    bid_amount,
                    bids,
                    ends_at,
                );
            },
            None => {},
        }
        let transaction = Transaction::aot_with(
            transaction_id.clone(),
            session_id.clone(),
            compute_units,
            bid_amount,
            slot_number,
            data,
            now,
        );
        let mut stored = self.add_transaction(session_id, transaction);
        let ghost stored_events = event_views(stored@);
        let ghost kept = stored@;
        events.append(&mut stored);
        proof {
            lemma_published_on(old(self).events, bus, self.events, told, kept);
        }
        assert(event_views(events@) =~= opening + bid_events + stored_events);
        assert(opening + bid_events + stored_events =~= opening + seq![
            AppEventView::AotBidSubmitted { slot_number, bidder: session_id, amount: bid_amount },
            AppEventView::TransactionUpdated { transaction },
        ]);
        (Ok(SubmitReceipt { transaction_id, slot_number, bid_amount }), events)
    }

    /// Submits a transaction for the slot `slot_number` now, under a new
    /// name.
    pub fn submit_aot_transaction(
        &mut self,
        session_id: String,
        slot_number: u64,
        bid_amount: u64,
        compute_units: u64,
        data: String,
        base_fee: u64,
        duration_seconds: i64,
    ) -> (result: (Result<SubmitReceipt, SubmitError>, Vec<AppEvent>))
        ensures
            final(self).events.has_published(&old(self).events, result.1@),
            final(self).auctions.jit() == old(self).auctions.jit(),
            slot_number < old(self).marketplace.current_slot ==> {
                &&& result.0 == Err::<SubmitReceipt, SubmitError>(SubmitError::InvalidSlot)
                &&& result.1@.len() == 0
                &&& final(self).game.players() == old(self).game.players()
                &&& final(self).auctions.aot() == old(self).auctions.aot()
                &&& final(self).marketplace@ == old(self).marketplace@
                &&& final(self).ledger == old(self).ledger
            },
            slot_number >= old(self).marketplace.current_slot ==> final(self).game.players()
                == roster_after_payment(old(self).game.players(), session_id, bid_amount, slot_number),
            slot_number >= old(self).marketplace.current_slot ==> exists|
                transaction_id: String,
                now: i64,
            |
                transaction_id@.len() == 36 && is_clock_reading(now) && #[trigger] is_aot_submission(
                    *old(self),
                    *final(self),
                    result,
                    session_id,
                    slot_number,
                    bid_amount,
                    compute_units,
                    data,
                    base_fee,
                    duration_seconds,
                    transaction_id,
                    now,
                ),
            old(self).auctions.wf() ==> final(self).auctions.wf(),
            old(self).game.wf() ==> final(self).game.wf(),
            old(self).ledger.wf() ==> final(self).ledger.wf(),
            old(self).marketplace@.wf() ==> final(self).marketplace@.wf(),
            final(self).sessions == old(self).sessions,
    {
        let transaction_id = new_id();
        let now = now_millis();
        self.submit_aot_transaction_with(
            session_id,
            slot_number,
            bid_amount,
            compute_units,
            data,
            base_fee,
            duration_seconds,
            transaction_id,
            now,
        )
    }
}

} // verus!

//! The events that announce every change of state, and the channel that
//! carries them to the subscribers.

use vstd::prelude::*;
use crate::models::slot::{Slot, SlotView};
use crate::models::marketplace::slot_views;
use crate::models::transaction::Transaction;

verus! {

/// A change of state, with what a listener needs to follow it.
#[derive(Debug, PartialEq, Eq)]
pub enum AppEvent {
    SlotAdvanced { current_slot: u64 },
    SlotsUpdated { slots: Vec<Slot> },
    JitAuctionStarted { slot_number: u64, min_bid: u64 },
    AotAuctionStarted { slot_number: u64, min_bid: u64, ends_at: i64 },
    JitBidSubmitted { slot_number: u64, bidder: String, amount: u64 },
    AotBidSubmitted { slot_number: u64, bidder: String, amount: u64 },
    JitAuctionResolved { slot_number: u64, winner: String, winning_bid: u64 },
    AotAuctionResolved { slot_number: u64, winner: String, winning_bid: u64 },
    TransactionUpdated { transaction: Transaction },
    MarketplaceStats {
        current_slot: u64,
        active_jit_auctions: usize,
        active_aot_auctions: usize,
        total_transactions: usize,
    },
}

/// What an [`AppEvent`] holds, with the slots by their views.
pub ghost enum AppEventView {
    SlotAdvanced { current_slot: u64 },
    SlotsUpdated { slots: Seq<SlotView> },
    JitAuctionStarted { slot_number: u64, min_bid: u64 },
    AotAuctionStarted { slot_number: u64, min_bid: u64, ends_at: i64 },
    JitBidSubmitted { slot_number: u64, bidder: String, amount: u64 },
    AotBidSubmitted { slot_number: u64, bidder: String, amount: u64 },
    JitAuctionResolved { slot_number: u64, winner: String, winning_bid: u64 },
    AotAuctionResolved { slot_number: u64, winner: String, winning_bid: u64 },
    TransactionUpdated { transaction: Transaction },
    MarketplaceStats {
        current_slot: u64,
        active_jit_auctions: usize,
        active_aot_auctions: usize,
        total_transactions: usize,
    },
}

impl View for AppEvent {
    type V = AppEventView;

    open spec fn view(&self) -> AppEventView {
        match *self {
            AppEvent::SlotAdvanced { current_slot } => AppEventView::SlotAdvanced { current_slot },
            AppEvent::SlotsUpdated { slots } => AppEventView::SlotsUpdated {
                slots: slot_views(slots@),
            },
            AppEvent::JitAuctionStarted { slot_number, min_bid } => AppEventView::JitAuctionStarted {
                slot_number,
                min_bid,
            },
            AppEvent::AotAuctionStarted {
                slot_number,
                min_bid,
                ends_at,
            } => AppEventView::AotAuctionStarted { slot_number, min_bid, ends_at },
            AppEvent::JitBidSubmitted {
                slot_number,
                bidder,
                amount,
            } => AppEventView::JitBidSubmitted { slot_number, bidder, amount },
            AppEvent::AotBidSubmitted {
                slot_number,
                bidder,
                amount,
            } => AppEventView::AotBidSubmitted { slot_number, bidder, amount },
            AppEvent::JitAuctionResolved {
                slot_number,
                winner,
                winning_bid,
            } => AppEventView::JitAuctionResolved { slot_number, winner, winning_bid },
            AppEvent::AotAuctionResolved {
                slot_number,
                winner,
                winning_bid,
            } => AppEventView::AotAuctionResolved { slot_number, winner, winning_bid },
            AppEvent::TransactionUpdated { transaction } => AppEventView::TransactionUpdated {
                transaction,
            },
            AppEvent::MarketplaceStats {
                current_slot,
                active_jit_auctions,
                active_aot_auctions,
                total_transactions,
            } => AppEventView::MarketplaceStats {
                current_slot,
                active_jit_auctions,
                active_aot_auctions,
                total_transactions,
            },
        }
    }
}

impl AppEventView {
    /// Whether the event announces the end of an auction.
    pub open spec fn is_resolution(self) -> bool {
        self is JitAuctionResolved || self is AotAuctionResolved
    }
}

/// The views of a sequence of events.
pub open spec fn event_views(events: Seq<AppEvent>) -> Seq<AppEventView> {
    events.map_values(|event: AppEvent| event@)
}

impl Clone for AppEvent {
    fn clone(&self) -> (r: Self)
        ensures
            r@ == self@,
    {
        match self {
            AppEvent::SlotAdvanced { current_slot } => AppEvent::SlotAdvanced {
                current_slot: *current_slot,
            },
            AppEvent::SlotsUpdated { slots } => {
                let mut copy: Vec<Slot> = Vec::new();
                let mut i: usize = 0;
                assert(slot_views(copy@) =~= slot_views(slots@.take(0)));
                while i < slots.len()
                    invariant
                        i <= slots.len(),
                        slot_views(copy@) == slot_views(slots@.take(i as int)),
                    decreases slots.len() - i,
                {
                    let ghost held = copy@;
                    let slot = slots[i].clone();
                    copy.push(slot);
                    assert(slot_views(copy@) =~= slot_views(held).push(slot@));
                    assert(slot_views(slots@.take(i + 1)) =~= slot_views(slots@.take(i as int)).push(
                        slots@[i as int]@,
                    ));
                    i += 1;
                }
                assert(slots@.take(i as int) == slots@);
                AppEvent::SlotsUpdated { slots: copy }
            },
            AppEvent::JitAuctionStarted { slot_number, min_bid } => AppEvent::JitAuctionStarted {
                slot_number: *slot_number,
                min_bid: *min_bid,
            },
            AppEvent::AotAuctionStarted { slot_number, min_bid, ends_at } => {
                AppEvent::AotAuctionStarted {
                    slot_number: *slot_number,
                    min_bid: *min_bid,
                    ends_at: *ends_at,
                }
            },
            AppEvent::JitBidSubmitted { slot_number, bidder, amount } => AppEvent::JitBidSubmitted {
                slot_number: *slot_number,
                bidder: bidder.clone(),
                amount: *amount,
            },
            AppEvent::AotBidSubmitted { slot_number, bidder, amount } => AppEvent::AotBidSubmitted {
                slot_number: *slot_number,
                bidder: bidder.clone(),
                amount: *amount,
            },
            AppEvent::JitAuctionResolved { slot_number, winner, winning_bid } => {
                AppEvent::JitAuctionResolved {
                    slot_number: *slot_number,
                    winner: winner.clone(),
                    winning_bid: *winning_bid,
                }
            },
            AppEvent::AotAuctionResolved { slot_number, winner, winning_bid } => {
                AppEvent::AotAuctionResolved {
                    slot_number: *slot_number,
                    winner: winner.clone(),
                    winning_bid: *winning_bid,
                }
            },
            AppEvent::TransactionUpdated { transaction } => AppEvent::TransactionUpdated {
                transaction: transaction.clone(),
            },
            AppEvent::MarketplaceStats {
                current_slot,
                active_jit_auctions,
                active_aot_auctions,
                total_transactions,
            } => AppEvent::MarketplaceStats {
                current_slot: *current_slot,
                active_jit_auctions: *active_jit_auctions,
                active_aot_auctions: *active_aot_auctions,
                total_transactions: *total_transactions,
            },
        }
    }
}

/// Number of events that the channel keeps for a subscriber that lags.
pub const EVENT_BACKLOG: usize = 10_000;

/// The sending half of tokio's broadcast channel.
#[verifier::external_type_specification]
#[verifier::external_body]
#[verifier::reject_recursive_types(T)]
pub struct ExSender<T>(tokio::sync::broadcast::Sender<T>);

/// The receiving half of tokio's broadcast channel.
#[verifier::external_type_specification]
#[verifier::external_body]
#[verifier::reject_recursive_types(T)]
pub struct ExReceiver<T>(tokio::sync::broadcast::Receiver<T>);

/// `Sender::clone` gives one more handle on the same channel. Nothing is
/// assumed of it.
pub assume_specification<T>[ <tokio::sync::broadcast::Sender<T> as Clone>::clone ](
    sender: &tokio::sync::broadcast::Sender<T>,
) -> (handle: tokio::sync::broadcast::Sender<T>)
;

/// The backlog that a channel was made for: the number of events that it
/// was asked to keep for a subscriber that lags.
pub uninterp spec fn backlog_of(sender: tokio::sync::broadcast::Sender<AppEvent>) -> usize;

/// Opens a channel: `tokio::sync::broadcast::channel`, of which the sender
/// is kept. `channel` panics on a capacity of 0 and on one above half of
/// `usize::MAX`, which `requires` leaves out.
///
/// Assumed: the channel is made for the backlog `capacity`. The channel
/// keeps at least so many events: it rounds the capacity up to a power of
/// two. Nothing else is assumed of the channel.
#[verifier::external_body]
fn open_channel(capacity: usize) -> (sender: tokio::sync::broadcast::Sender<AppEvent>)
    requires
        0 < capacity <= usize::MAX / 2,
    ensures
        backlog_of(sender) == capacity,
{
    tokio::sync::broadcast::channel(capacity).0
}

/// Sends an event: `Sender::send`. It returns whether any subscriber was
/// there to take it; without one the event is dropped. Nothing is assumed
/// of the answer, which depends on who subscribed.
#[verifier::external_body]
fn send_event(sender: &tokio::sync::broadcast::Sender<AppEvent>, event: AppEvent) -> (taken: bool) {
    sender.send(event).is_ok()
}

/// The channel that a receiver listens on: the sender that it was made
/// from.
pub uninterp spec fn channel_of(
    receiver: tokio::sync::broadcast::Receiver<AppEvent>,
) -> tokio::sync::broadcast::Sender<AppEvent>;

/// Subscribes: `Sender::subscribe`. The receiver gets the events that are
/// sent from now on. `subscribe` panics when the channel already has the
/// greatest number of receivers that it can count.
///
/// Assumed: the receiver listens on the channel of `sender`; it is made
/// from the state that the sender shares with its channel.
#[verifier::external_body]
fn open_receiver(sender: &tokio::sync::broadcast::Sender<AppEvent>) -> (receiver: tokio::sync::broadcast::Receiver<AppEvent>)
    ensures
        channel_of(receiver) == *sender,
{
    sender.subscribe()
}

/// Fans events out to every subscriber. Publishing never blocks, and never
/// fails for want of a subscriber.
#[derive(Clone)]
pub struct EventBroadcaster {
    sender: tokio::sync::broadcast::Sender<AppEvent>,
    log: Ghost<Seq<AppEventView>>,
}

impl EventBroadcaster {
    /// The backlog that the channel was made for.
    pub closed spec fn backlog(&self) -> usize {
        backlog_of(self.sender)
    }

    /// The channel that the events are published on.
    pub closed spec fn channel(&self) -> tokio::sync::broadcast::Sender<AppEvent> {
        self.sender
    }

    /// The events that were published through this broadcaster, in their
    /// order.
    pub closed spec fn published(&self) -> Seq<AppEventView> {
        self.log@
    }

    /// Whether this is the broadcaster `before` once `events` were
    /// published through it, in their order: the channel is the same.
    pub open spec fn has_published(&self, before: &EventBroadcaster, events: Seq<AppEvent>) -> bool {
        &&& self.published() == before.published() + event_views(events)
        &&& self.channel() == before.channel()
    }

    /// A channel without subscribers, made for a backlog of
    /// [`EVENT_BACKLOG`] events, on which nothing was published.
    pub fn new() -> (broadcaster: Self)
        ensures
            broadcaster.backlog() == EVENT_BACKLOG,
            broadcaster.published() == Seq::<AppEventView>::empty(),
    {
        EventBroadcaster { sender: open_channel(EVENT_BACKLOG), log: Ghost(Seq::empty()) }
    }

    /// Publishes one event.
    pub fn broadcast(&mut self, event: AppEvent)
        ensures
            final(self).published() == old(self).published().push(event@),
            final(self).channel() == old(self).channel(),
            final(self).backlog() == old(self).backlog(),
    {
        proof {
            self.log@ = self.log@.push(event@);
        }
        let _ = send_event(&self.sender, event);
    }

    /// Publishes the events in their order.
    pub fn broadcast_all(&mut self, events: &Vec<AppEvent>)
        ensures
            final(self).has_published(old(self), events@),
            final(self).backlog() == old(self).backlog(),
    {
        let mut i: usize = 0;
        assert(event_views(events@.take(0)) =~= Seq::<AppEventView>::empty());
        assert(self.published() =~= old(self).published() + event_views(events@.take(0)));
        while i < events.len()
            invariant
                i <= events.len(),
                self.published() == old(self).published() + event_views(events@.take(i as int)),
                self.channel() == old(self).channel(),
                self.backlog() == old(self).backlog(),
            decreases events.len() - i,
        {
            let ghost held = self.published();
            self.broadcast(events[i].clone());
            assert(event_views(events@.take(i + 1)) =~= event_views(events@.take(i as int)).push(
                events@[i as int]@,
            ));
            assert(self.published() =~= old(self).published() + event_views(
                events@.take(i + 1),
            ));
            i += 1;
        }
        assert(events@.take(i as int) == events@);
    }

    /// A receiver for the events that are published on the channel from
    /// now on.
    pub fn subscribe(&self) -> (receiver: tokio::sync::broadcast::Receiver<AppEvent>)
        ensures
            channel_of(receiver) == self.channel(),
    {
        open_receiver(&self.sender)
    }
}

/// Nothing published leaves the broadcaster as it is.
pub proof fn lemma_published_nothing(broadcaster: EventBroadcaster)
    ensures
        broadcaster.has_published(&broadcaster, Seq::<AppEvent>::empty()),
{
    assert(broadcaster.published() =~= broadcaster.published() + event_views(
        Seq::<AppEvent>::empty(),
    ));
}

/// Published after published is published: the events of both, in their
/// order.
pub proof fn lemma_published_on(
    before: EventBroadcaster,
    mid: EventBroadcaster,
    after: EventBroadcaster,
    first: Seq<AppEvent>,
    second: Seq<AppEvent>,
)
    requires
        mid.has_published(&before, first),
        after.has_published(&mid, second),
    ensures
        after.has_published(&before, first + second),
{
    assert(event_views(first + second) =~= event_views(first) + event_views(second));
    assert(before.published() + event_views(first) + event_views(second) =~= before.published()
        + (event_views(first) + event_views(second)));
}

} // verus!

//! The players of the marketplace.

use vstd::prelude::*;
use crate::models::metrics::Achievement;
use crate::models::player::{PlayerStats, PlayerStatsView};
use crate::models::types::TransactionType;
use crate::outside::same_text;

verus! {

/// The views of a sequence of player records.
pub open spec fn player_views(players: Seq<PlayerStats>) -> Seq<PlayerStatsView> {
    players.map_values(|player: PlayerStats| player@)
}

/// Index of the first record from `from` on that belongs to `session_id`;
/// the length of the sequence if there is none.
pub open spec fn position_from(players: Seq<PlayerStatsView>, session_id: Seq<char>, from: int) -> int
    decreases players.len() - from,
{
    if from < 0 || from >= players.len() {
        players.len() as int
    } else if players[from].session_id@ == session_id {
        from
    } else {
        position_from(players, session_id, from + 1)
    }
}

/// Index of the first record that belongs to `session_id`; the length of
/// the sequence if there is none.
pub open spec fn position(players: Seq<PlayerStatsView>, session_id: Seq<char>) -> int {
    position_from(players, session_id, 0)
}

/// `position_from` gives an index from `from` on at which the record belongs
/// to the session, with none before it, or the length.
pub proof fn lemma_position_from(players: Seq<PlayerStatsView>, session_id: Seq<char>, from: int)
    requires
        0 <= from <= players.len(),
    ensures
        from <= position_from(players, session_id, from) <= players.len(),
        position_from(players, session_id, from) < players.len() ==> players[position_from(
            players,
            session_id,
            from,
        )].session_id@ == session_id,
        forall|i: int|
            from <= i < position_from(players, session_id, from) ==> (#[trigger] players[i]).session_id@
                != session_id,
    decreases players.len() - from,
{
    if from < players.len() && players[from].session_id@ != session_id {
        lemma_position_from(players, session_id, from + 1);
    }
}

/// Whether one of `session_ids` is `session_id`.
pub open spec fn is_named(session_ids: Seq<String>, session_id: Seq<char>) -> bool {
    exists|i: int| 0 <= i < session_ids.len() && (#[trigger] session_ids[i])@ == session_id
}

/// The records of `players` that belong to none of `session_ids`, in their
/// order.
pub open spec fn without_sessions(players: Seq<PlayerStatsView>, session_ids: Seq<String>) -> Seq<
    PlayerStatsView,
>
    decreases players.len(),
{
    if players.len() == 0 {
        Seq::empty()
    } else {
        let before = without_sessions(players.drop_last(), session_ids);
        if is_named(session_ids, players.last().session_id@) {
            before
        } else {
            before.push(players.last())
        }
    }
}

/// Whether no two records of `players` belong to the same session.
pub open spec fn distinct_sessions(players: Seq<PlayerStatsView>) -> bool {
    forall|i: int, j: int|
        0 <= i < j < players.len() ==> (#[trigger] players[i]).session_id@ != (
        #[trigger] players[j]).session_id@
}

/// Every record that `without_sessions` keeps is one of the records.
pub proof fn lemma_kept_is_member(players: Seq<PlayerStatsView>, session_ids: Seq<String>, i: int)
    requires
        0 <= i < without_sessions(players, session_ids).len(),
    ensures
        exists|k: int|
            0 <= k < players.len() && #[trigger] players[k] == without_sessions(
                players,
                session_ids,
            )[i],
    decreases players.len(),
{
    let front = players.drop_last();
    let kept = without_sessions(front, session_ids);
    if i < kept.len() {
        lemma_kept_is_member(front, session_ids, i);
        let k = choose|k: int| 0 <= k < front.len() && #[trigger] front[k] == kept[i];
        assert(players[k] == front[k]);
    } else {
        assert(players[players.len() - 1] == without_sessions(players, session_ids)[i]);
    }
}

/// Records of distinct sessions stay so when some are removed.
pub proof fn lemma_without_sessions(players: Seq<PlayerStatsView>, session_ids: Seq<String>)
    requires
        distinct_sessions(players),
    ensures
        distinct_sessions(without_sessions(players, session_ids)),
    decreases players.len(),
{
    if players.len() > 0 {
        let front = players.drop_last();
        assert forall|i: int, j: int| 0 <= i < j < front.len() implies (#[trigger] front[i]).session_id@
            != (#[trigger] front[j]).session_id@ by {
            assert(front[i] == players[i] && front[j] == players[j]);
        }
        lemma_without_sessions(front, session_ids);
        let kept = without_sessions(front, session_ids);
        let all = without_sessions(players, session_ids);
        assert forall|i: int, j: int| 0 <= i < j < all.len() implies (#[trigger] all[i]).session_id@
            != (#[trigger] all[j]).session_id@ by {
            if j < kept.len() {
                assert(all[i] == kept[i] && all[j] == kept[j]);
            } else {
                lemma_kept_is_member(front, session_ids, i);
                let k = choose|k: int| 0 <= k < front.len() && #[trigger] front[k] == kept[i];
                assert(players[k] == front[k]);
                assert(all[j] == players[players.len() - 1]);
            }
        }
    }
}

/// The records with one for `session_id`: a new record is added at the end
/// if the session has none.
pub open spec fn roster_with(players: Seq<PlayerStatsView>, session_id: String) -> Seq<
    PlayerStatsView,
> {
    if position(players, session_id@) < players.len() {
        players
    } else {
        players.push(PlayerStatsView::fresh(session_id))
    }
}

/// Why a bid could not be paid for.
#[derive(Clone, Copy, Debug, PartialEq, Eq, Structural)]
pub enum PaymentError {
    /// The balance does not cover the amount.
    InsufficientBalance,
    /// The player's counters cannot take the bid.
    PaymentFailed,
}

/// What an attempt to pay `amount` from `record` gets.
pub open spec fn payment_outcome(record: PlayerStatsView, amount: u64) -> Result<(), PaymentError> {
    if record.balance < amount {
        Err(PaymentError::InsufficientBalance)
    } else if !record.can_pay(amount) {
        Err(PaymentError::PaymentFailed)
    } else {
        Ok(())
    }
}

/// The records after the player of `session_id` was asked to pay `amount`
/// for a bid on `slot_number`: the player has a record, and has paid if the
/// payment went through.
pub open spec fn roster_after_payment(
    players: Seq<PlayerStatsView>,
    session_id: String,
    amount: u64,
    slot_number: u64,
) -> Seq<PlayerStatsView> {
    let roster = roster_with(players, session_id);
    let index = position(players, session_id@);
    if payment_outcome(roster[index], amount) is Ok {
        roster.update(index, roster[index].after_payment(amount, slot_number))
    } else {
        roster
    }
}

/// The records of the players, at most one for a session.
#[derive(Debug)]
pub struct GameManager {
    pub player_stats: Vec<PlayerStats>,
}

impl GameManager {
    /// The records by their views.
    pub open spec fn players(&self) -> Seq<PlayerStatsView> {
        player_views(self.player_stats@)
    }

    /// No two records belong to the same session.
    pub open spec fn wf(&self) -> bool {
        distinct_sessions(self.players())
    }

    /// The records with one for `session_id`: a new record is added at the
    /// end if the session has none.
    pub open spec fn with_player(&self, session_id: String) -> Seq<PlayerStatsView> {
        roster_with(self.players(), session_id)
    }

    /// A game without players.
    pub fn new() -> (game: Self)
        ensures
            game.players() == Seq::<PlayerStatsView>::empty(),
            game.wf(),
    {
        let game = GameManager { player_stats: Vec::new() };
        assert(game.players() =~= Seq::<PlayerStatsView>::empty());
        game
    }

    /// Index of the record of `session_id`, if there is one.
    pub fn find_player(&self, session_id: &str) -> (found: Option<usize>)
        ensures
            match found {
                Some(index) => index == position(self.players(), session_id@) && index
                    < self.players().len(),
                None => position(self.players(), session_id@) == self.players().len(),
            },
    {
        let mut i: usize = 0;
        while i < self.player_stats.len()
            invariant
                i <= self.player_stats.len(),
                position(self.players(), session_id@) == position_from(
                    self.players(),
                    session_id@,
                    i as int,
                ),
            decreases self.player_stats.len() - i,
        {
            if same_text(self.player_stats[i].session_id.as_str(), session_id) {
                return Some(i);
            }
            i += 1;
        }
        None
    }

    /// The record of `session_id`; a new one is made if there is none.
    pub fn get_or_create_player(&mut self, session_id: String) -> (player: &mut PlayerStats)
        ensures
            player@ == old(self).with_player(session_id)[position(
                old(self).players(),
                session_id@,
            )],
            final(self).players() == old(self).with_player(session_id).update(
                position(old(self).players(), session_id@),
                final(player)@,
            ),
    {
        proof {
            lemma_position_from(self.players(), session_id@, 0);
        }
        let index = match self.find_player(session_id.as_str()) {
            Some(index) => index,
            None => {
                let ghost held = self.players();
                let player = PlayerStats::new(session_id);
                self.player_stats.push(player);
                assert(self.players() =~= held.push(player@));
                self.player_stats.len() - 1
            },
        };
        let ghost base = self.players();
        let ghost records = self.player_stats@;
        let player = &mut self.player_stats[index];
        proof {
            assert(player_views(records.update(index as int, *final(player))) =~= base.update(
                index as int,
                final(player)@,
            ));
        }
        player
    }
}

/// Whether one of `session_ids` is `session_id`.
pub fn names(session_ids: &[String], session_id: &str) -> (named: bool)
    ensures
        named == is_named(session_ids@, session_id@),
{
    let mut i: usize = 0;
    while i < session_ids.len()
        invariant
            i <= session_ids.len(),
            forall|n: int| 0 <= n < i ==> (#[trigger] session_ids@[n])@ != session_id@,
        decreases session_ids.len() - i,
    {
        if same_text(session_ids[i].as_str(), session_id) {
            return true;
        }
        i += 1;
    }
    false
}

impl GameManager {
    /// Removes the records of the sessions `session_ids`.
    pub fn cleanup_players(&mut self, session_ids: &[String])
        ensures
            final(self).players() == without_sessions(old(self).players(), session_ids@),
            old(self).wf() ==> final(self).wf(),
    {
        let mut i: usize = 0;
        let ghost before = self.players();
        let ghost mut seen: int = 0;
        assert(before.take(0) =~= Seq::<PlayerStatsView>::empty());
        assert(before.skip(0) =~= before);
        while i < self.player_stats.len()
            invariant
                0 <= seen <= before.len(),
                i <= self.player_stats.len(),
                before == old(self).players(),
                i == without_sessions(before.take(seen), session_ids@).len(),
                self.players() == without_sessions(before.take(seen), session_ids@) + before.skip(
                    seen,
                ),
            decreases self.player_stats.len() - i,
        {
            let ghost kept = without_sessions(before.take(seen), session_ids@);
            let ghost held = self.players();
            assert(held[i as int] == before.skip(seen)[0]);
            assert(before.take(seen + 1).drop_last() == before.take(seen));
            assert(before.take(seen + 1).last() == before[seen]);
            let ghost records = self.player_stats@;
            if names(session_ids, self.player_stats[i].session_id.as_str()) {
                self.player_stats.remove(i);
                assert(self.players() =~= held.remove(i as int));
                assert(held.remove(i as int) =~= kept + before.skip(seen + 1));
            } else {
                assert(held =~= kept.push(before[seen]) + before.skip(seen + 1));
                i += 1;
            }
            proof {
                seen = seen + 1;
            }
        }
        assert(before.skip(seen) =~= Seq::<PlayerStatsView>::empty()) by {
            assert(self.players().len() == i + before.skip(seen).len());
        }
        assert(before.take(seen) =~= before);
        assert(self.players() =~= without_sessions(before, session_ids@));
        proof {
            if old(self).wf() {
                lemma_without_sessions(before, session_ids@);
            }
        }
    }

    /// Takes `amount` from the player of `session_id` for a bid on
    /// `slot_number`, and notes the bid. A session without a record gets
    /// one first. Nothing is taken when the balance does not cover the
    /// amount, or when the player's counters cannot take the bid.
    pub fn pay_for_bid(&mut self, session_id: String, amount: u64, slot_number: u64) -> (result:
        Result<(), PaymentError>)
        ensures
            result == payment_outcome(
                old(self).with_player(session_id)[position(old(self).players(), session_id@)],
                amount,
            ),
            final(self).players() == roster_after_payment(
                old(self).players(),
                session_id,
                amount,
                slot_number,
            ),
            old(self).wf() ==> final(self).wf(),
    {
        proof {
            lemma_position_from(self.players(), session_id@, 0);
        }
        let ghost roster = self.with_player(session_id);
        let ghost index = position(self.players(), session_id@);
        let player = self.get_or_create_player(session_id);
        let ghost record = player@;
        let result = if !player.is_balance_sufficient(amount) {
            Err(PaymentError::InsufficientBalance)
        } else if player.total_sol_spent > u64::MAX - amount || player.total_bids_placed
            == u32::MAX {
            Err(PaymentError::PaymentFailed)
        } else {
            let _ = player.deduct_balance(amount);
            player.track_bid(slot_number);
            Ok(())
        };
        proof {
            assert(record == roster[index]);
            if result is Ok {
                assert(self.players()[index] == record.after_payment(amount, slot_number));
            } else {
                assert(self.players() =~= roster);
            }
            if old(self).wf() {
                assert forall|i: int, j: int| 0 <= i < j < self.players().len() implies (
                #[trigger] self.players()[i]).session_id@ != (#[trigger] self.players()[j]).session_id@ by {
                    assert(self.players()[i].session_id == roster[i].session_id);
                    assert(self.players()[j].session_id == roster[j].session_id);
                    if j < old(self).players().len() {
                        assert(roster[i] == old(self).players()[i]);
                        assert(roster[j] == old(self).players()[j]);
                    } else {
                        assert(roster[i] == old(self).players()[i]);
                    }
                }
            }
        }
        result
    }

    /// Counts a won auction for the player of `session_id`, if there is one.
    pub fn process_auction_win(&mut self, session_id: &str, transaction_type: TransactionType)
        requires
            position(old(self).players(), session_id@) < old(self).players().len() ==> old(self).players()[position(old(self).players(), session_id@)].has_win_room(),
        ensures
            final(self).players().len() == old(self).players().len(),
            forall|i: int|
                0 <= i < old(self).players().len() && i != position(
                    old(self).players(),
                    session_id@,
                ) ==> #[trigger] final(self).players()[i] == old(self).players()[i],
            position(old(self).players(), session_id@) < old(self).players().len() ==> exists|
                bonus: u32,
                awards: Seq<Achievement>,
            | #[trigger]
                old(self).players()[position(old(self).players(), session_id@)].is_won(
                    final(self).players()[position(old(self).players(), session_id@)],
                    transaction_type,
                    bonus,
                    awards,
                ),
            old(self).wf() ==> final(self).wf(),
    {
        match self.find_player(session_id) {
            Some(index) => {
                let ghost base = self.players();
                let ghost records = self.player_stats@;
                let player = &mut self.player_stats[index];
                proof {
                    assert(player@ == base[index as int]);
                    assert(player_views(records.update(index as int, *final(player))) =~= base.update(
                        index as int,
                        final(player)@,
                    ));
                }
                player.process_win(transaction_type);
                proof {
                    assert(self.players() == base.update(index as int, self.players()[index as int]));
                    let (bonus, awards) = choose|bonus: u32, awards: Seq<Achievement>| #[trigger]
                        base[index as int].is_won(
                            self.players()[index as int],
                            transaction_type,
                            bonus,
                            awards,
                        );
                    assert(base[index as int].is_won(
                        self.players()[index as int],
                        transaction_type,
                        bonus,
                        awards,
                    ));
                }
            },
            None => {},
        }
    }

    /// Counts a lost auction for the player of `session_id`, if there is
    /// one.
    pub fn process_auction_loss(&mut self, session_id: &str)
        requires
            position(old(self).players(), session_id@) < old(self).players().len() ==> old(self).players()[position(old(self).players(), session_id@)].has_award_room(),
        ensures
            final(self).players().len() == old(self).players().len(),
            forall|i: int|
                0 <= i < old(self).players().len() && i != position(
                    old(self).players(),
                    session_id@,
                ) ==> #[trigger] final(self).players()[i] == old(self).players()[i],
            position(old(self).players(), session_id@) < old(self).players().len() ==> exists|
                awards: Seq<Achievement>,
            | #[trigger]
                old(self).players()[position(old(self).players(), session_id@)].is_lost(
                    final(self).players()[position(old(self).players(), session_id@)],
                    awards,
                ),
            old(self).wf() ==> final(self).wf(),
    {
        match self.find_player(session_id) {
            Some(index) => {
                let ghost base = self.players();
                let ghost records = self.player_stats@;
                let player = &mut self.player_stats[index];
                proof {
                    assert(player@ == base[index as int]);
                    assert(player_views(records.update(index as int, *final(player))) =~= base.update(
                        index as int,
                        final(player)@,
                    ));
                }
                player.process_loss();
                proof {
                    assert(self.players() == base.update(index as int, self.players()[index as int]));
                    let awards = choose|awards: Seq<Achievement>| #[trigger]
                        base[index as int].is_lost(self.players()[index as int], awards);
                    assert(base[index as int].is_lost(self.players()[index as int], awards));
                }
            },
            None => {},
        }
    }
}

} // verus!

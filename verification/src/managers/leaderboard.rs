//! The best players, ranked.

use vstd::prelude::*;
use vstd::string::StringExecFns;
use vstd::utf8::{decode_utf8, encode_utf8, is_char_boundary};
use crate::managers::game::GameManager;
use crate::models::metrics::{Leaderboard, LeaderboardEntry};
use crate::models::player::{PlayerStats, PlayerStatsView};
use crate::outside::{is_clock_reading, now_millis};
use crate::utils::ranking::{is_ranking, proper, rank};

verus! {

/// Number of players that a ranking shows.
pub const LEADERBOARD_SIZE: usize = 10;

/// Number of auctions that a player must have taken part in to be ranked by
/// win rate.
pub const MIN_AUCTIONS_FOR_WIN_RATE: u32 = 5;

/// Number of bytes of the session that a display name shows.
pub const DISPLAY_NAME_BYTES: usize = 6;

/// Whether a session can be shown by name: the sixth byte of its text in
/// UTF-8 ends a character (so the text has six bytes at least).
pub open spec fn has_display_name(session_id: Seq<char>) -> bool {
    is_char_boundary(encode_utf8(session_id), DISPLAY_NAME_BYTES as int)
}

/// The name that a player is shown under: the word `Player` and the text
/// of the first six bytes of the session.
pub open spec fn display_name_of(session_id: Seq<char>) -> Seq<char> {
    "Player "@ + decode_utf8(encode_utf8(session_id).subrange(0, DISPLAY_NAME_BYTES as int))
}

/// Whether every player can be shown by name.
pub open spec fn have_display_names(players: Seq<PlayerStatsView>) -> bool {
    forall|i: int| 0 <= i < players.len() ==> has_display_name((#[trigger] players[i]).session_id@)
}

/// Whether `entry` is the line of `player` at the rank `rank`.
pub open spec fn is_entry_of(entry: LeaderboardEntry, player: PlayerStatsView, rank: int) -> bool {
    &&& entry.session_id == player.session_id
    &&& entry.display_name@ == display_name_of(player.session_id@)
    &&& entry.rank == rank
    &&& entry.level == player.level
}

/// Whether `entries` are the best of the players at the places `eligible`
/// by the scores `scores`: the lines of the first of a ranking, at most
/// ten, with the ranks from 1 on.
pub open spec fn is_top(
    entries: Seq<LeaderboardEntry>,
    players: Seq<PlayerStatsView>,
    eligible: Seq<usize>,
    scores: Seq<(u64, u64)>,
) -> bool {
    exists|order: Seq<usize>|
        {
            &&& #[trigger] is_ranking(order, scores)
            &&& entries.len() == if scores.len() < LEADERBOARD_SIZE {
                scores.len()
            } else {
                LEADERBOARD_SIZE as nat
            }
            &&& forall|k: int|
                0 <= k < entries.len() ==> is_entry_of(
                    #[trigger] entries[k],
                    players[eligible[order[k] as int] as int],
                    k + 1,
                )
        }
}

/// The places of all the players.
pub open spec fn all_places(count: nat) -> Seq<usize> {
    Seq::new(count, |i: int| i as usize)
}

/// The places of the players who can be ranked by win rate, in their
/// order.
pub open spec fn rated_places(players: Seq<PlayerStatsView>) -> Seq<usize>
    decreases players.len(),
{
    if players.len() == 0 {
        Seq::empty()
    } else if players.last().total_auctions_participated >= MIN_AUCTIONS_FOR_WIN_RATE {
        rated_places(players.drop_last()).push((players.len() - 1) as usize)
    } else {
        rated_places(players.drop_last())
    }
}

/// The score of each player by auctions won.
pub open spec fn win_scores(players: Seq<PlayerStatsView>) -> Seq<(u64, u64)> {
    Seq::new(players.len(), |i: int| (players[i].total_auctions_won as u64, 1u64))
}

/// The score of each player by balance.
pub open spec fn balance_scores(players: Seq<PlayerStatsView>) -> Seq<(u64, u64)> {
    Seq::new(players.len(), |i: int| (players[i].balance, 1u64))
}

/// The score by win rate of each player at the places `places`: the
/// auctions won over the auctions taken part in.
pub open spec fn rate_scores(players: Seq<PlayerStatsView>, places: Seq<usize>) -> Seq<(u64, u64)> {
    Seq::new(
        places.len(),
        |i: int|
            (
                players[places[i] as int].total_auctions_won as u64,
                players[places[i] as int].total_auctions_participated as u64,
            ),
    )
}

/// Whether a session can be shown by name.
pub fn can_display(session_id: &str) -> (shown: bool)
    ensures
        shown == has_display_name(session_id@),
{
    session_id.is_char_boundary(DISPLAY_NAME_BYTES)
}

/// The name that a player is shown under.
pub fn display_name(session_id: &str) -> (name: String)
    requires
        has_display_name(session_id@),
    ensures
        name@ == display_name_of(session_id@),
{
    let (head, _) = session_id.split_at(DISPLAY_NAME_BYTES);
    proof {
        vstd::utf8::encode_utf8_decode_utf8(head@);
    }
    "Player ".to_owned().concat(head)
}

/// The lines of the best of the players at the places `eligible` by the
/// scores `scores`.
pub fn top_entries(
    players: &Vec<PlayerStats>,
    eligible: &Vec<usize>,
    scores: &Vec<(u64, u64)>,
) -> (entries: Vec<LeaderboardEntry>)
    requires
        eligible@.len() == scores@.len(),
        proper(scores@),
        forall|i: int| 0 <= i < eligible@.len() ==> (#[trigger] eligible@[i]) < players@.len(),
        have_display_names(crate::managers::game::player_views(players@)),
    ensures
        is_top(entries@, crate::managers::game::player_views(players@), eligible@, scores@),
{
    let order = rank(scores);
    let mut entries: Vec<LeaderboardEntry> = Vec::new();
    let shown = if order.len() < LEADERBOARD_SIZE {
        order.len()
    } else {
        LEADERBOARD_SIZE
    };
    let ghost views = crate::managers::game::player_views(players@);
    let mut k: usize = 0;
    while k < shown
        invariant
            k <= shown <= order.len(),
            shown <= LEADERBOARD_SIZE,
            is_ranking(order@, scores@),
            eligible@.len() == scores@.len(),
            forall|i: int| 0 <= i < eligible@.len() ==> (#[trigger] eligible@[i]) < players@.len(),
            views == crate::managers::game::player_views(players@),
            have_display_names(views),
            entries@.len() == k,
            forall|n: int|
                0 <= n < k ==> is_entry_of(
                    #[trigger] entries@[n],
                    views[eligible@[order@[n] as int] as int],
                    n + 1,
                ),
        decreases shown - k,
    {
        assert(order@[k as int] < scores@.len());
        let player = &players[eligible[order[k]]];
        assert(player@ == views[eligible@[order@[k as int] as int] as int]);
        let entry = LeaderboardEntry {
            session_id: player.session_id.clone(),
            display_name: display_name(player.session_id.as_str()),
            rank: (k + 1) as u32,
            level: player.level,
        };
        entries.push(entry);
        k += 1;
    }
    entries
}

impl GameManager {
    /// Whether every player can be shown by name.
    pub fn can_rank(&self) -> (ready: bool)
        ensures
            ready == have_display_names(self.players()),
    {
        let mut i: usize = 0;
        while i < self.player_stats.len()
            invariant
                i <= self.player_stats.len(),
                forall|n: int|
                    0 <= n < i ==> has_display_name((#[trigger] self.players()[n]).session_id@),
            decreases self.player_stats.len() - i,
        {
            assert(self.player_stats@[i as int]@ == self.players()[i as int]);
            if !can_display(self.player_stats[i].session_id.as_str()) {
                return false;
            }
            i += 1;
        }
        true
    }

    /// The ten best players by auctions won, by balance and by win rate, as
    /// of `now`. Only players who took part in five auctions or more are
    /// ranked by win rate. Players with equal scores stand in the order in
    /// which they joined.
    pub fn generate_leaderboard_at(&self, now: i64) -> (board: Leaderboard)
        requires
            have_display_names(self.players()),
        ensures
            is_top(
                board.top_by_wins@,
                self.players(),
                all_places(self.players().len()),
                win_scores(self.players()),
            ),
            is_top(
                board.top_by_balance@,
                self.players(),
                all_places(self.players().len()),
                balance_scores(self.players()),
            ),
            is_top(
                board.top_by_winrate@,
                self.players(),
                rated_places(self.players()),
                rate_scores(self.players(), rated_places(self.players())),
            ),
            board.last_updated == now,
    {
        let ghost views = self.players();
        let mut all: Vec<usize> = Vec::new();
        let mut rated: Vec<usize> = Vec::new();
        let mut by_wins: Vec<(u64, u64)> = Vec::new();
        let mut by_balance: Vec<(u64, u64)> = Vec::new();
        let mut by_rate: Vec<(u64, u64)> = Vec::new();
        let mut i: usize = 0;
        assert(views.take(0) =~= Seq::<PlayerStatsView>::empty());
        while i < self.player_stats.len()
            invariant
                i <= self.player_stats.len(),
                views == self.players(),
                all@ == all_places(i as nat),
                by_wins@ == win_scores(views.take(i as int)),
                by_balance@ == balance_scores(views.take(i as int)),
                rated@ == rated_places(views.take(i as int)),
                by_rate@ == rate_scores(views, rated@),
                proper(by_rate@),
                forall|n: int| 0 <= n < rated@.len() ==> (#[trigger] rated@[n]) < i,
            decreases self.player_stats.len() - i,
        {
            let player = &self.player_stats[i];
            let ghost seen = views.take(i as int);
            let ghost next = views.take(i + 1);
            let ghost held = rated@;
            assert(player@ == views[i as int]);
            assert(next.drop_last() == seen);
            assert(next.last() == views[i as int]);
            all.push(i);
            by_wins.push((player.total_auctions_won as u64, 1));
            by_balance.push((player.balance, 1));
            if player.total_auctions_participated >= MIN_AUCTIONS_FOR_WIN_RATE {
                rated.push(i);
                by_rate.push(
                    (player.total_auctions_won as u64, player.total_auctions_participated as u64),
                );
                assert(by_rate@ =~= rate_scores(views, rated@)) by {
                    assert forall|n: int| 0 <= n < rated@.len() implies by_rate@[n] == rate_scores(
                        views,
                        rated@,
                    )[n] by {
                        if n < held.len() {
                            assert(rated@[n] == held[n]);
                        }
                    }
                }
            }
            assert(all@ =~= all_places((i + 1) as nat));
            assert(by_wins@ =~= win_scores(next));
            assert(by_balance@ =~= balance_scores(next));
            i += 1;
        }
        assert(views.take(i as int) == views);
        assert(proper(by_wins@) && proper(by_balance@));
        Leaderboard {
            top_by_wins: top_entries(&self.player_stats, &all, &by_wins),
            top_by_balance: top_entries(&self.player_stats, &all, &by_balance),
            top_by_winrate: top_entries(&self.player_stats, &rated, &by_rate),
            last_updated: now,
        }
    }

    /// The ten best players by auctions won, by balance and by win rate, as
    /// of now.
    pub fn generate_leaderboard(&self) -> (board: Leaderboard)
        requires
            have_display_names(self.players()),
        ensures
            is_top(
                board.top_by_wins@,
                self.players(),
                all_places(self.players().len()),
                win_scores(self.players()),
            ),
            is_top(
                board.top_by_balance@,
                self.players(),
                all_places(self.players().len()),
                balance_scores(self.players()),
            ),
            is_top(
                board.top_by_winrate@,
                self.players(),
                rated_places(self.players()),
                rate_scores(self.players(), rated_places(self.players())),
            ),
            is_clock_reading(board.last_updated),
    {
        let now = now_millis();
        self.generate_leaderboard_at(now)
    }
}

} // verus!

//! The sessions that are alive.

use vstd::prelude::*;
use crate::models::session::{Session, SESSION_LIFETIME_MS};
use crate::outside::{is_clock_reading, new_id, now_millis, same_text};
use crate::utils::lookup::{contains_text, distinct, first, lemma_first, lemma_first_is};

verus! {

/// The identifiers of a sequence of sessions.
pub open spec fn session_ids(sessions: Seq<Session>) -> Seq<Seq<char>> {
    sessions.map_values(|session: Session| session.id@)
}

/// The sessions with `session` under its identifier: it takes the place of
/// the one that had the identifier, or goes to the end.
pub open spec fn with_session(sessions: Seq<Session>, session: Session) -> Seq<Session> {
    let index = first(session_ids(sessions), session.id@);
    if index < sessions.len() {
        sessions.update(index, session)
    } else {
        sessions.push(session)
    }
}

/// The sessions after `id` was asked for at `now`: a session that has ended
/// is removed, one that is alive is used.
pub open spec fn after_lookup(sessions: Seq<Session>, id: Seq<char>, now: i64) -> Seq<Session> {
    let index = first(session_ids(sessions), id);
    if index >= sessions.len() {
        sessions
    } else if sessions[index].expired_at(now) {
        sessions.remove(index)
    } else {
        sessions.update(index, sessions[index].used_at(now))
    }
}

/// What asking for `id` at `now` gives: the session as the use leaves it,
/// if it is alive.
pub open spec fn lookup(sessions: Seq<Session>, id: Seq<char>, now: i64) -> Option<Session> {
    let index = first(session_ids(sessions), id);
    if index < sessions.len() && !sessions[index].expired_at(now) {
        Some(sessions[index].used_at(now))
    } else {
        None
    }
}

/// The sessions that are alive at `now`, in their order.
pub open spec fn alive_at(sessions: Seq<Session>, now: i64) -> Seq<Session>
    decreases sessions.len(),
{
    if sessions.len() == 0 {
        Seq::empty()
    } else if sessions.last().expired_at(now) {
        alive_at(sessions.drop_last(), now)
    } else {
        alive_at(sessions.drop_last(), now).push(sessions.last())
    }
}

/// The identifiers of the sessions that have ended at `now`, in their
/// order.
pub open spec fn ended_at(sessions: Seq<Session>, now: i64) -> Seq<Seq<char>>
    decreases sessions.len(),
{
    if sessions.len() == 0 {
        Seq::empty()
    } else if sessions.last().expired_at(now) {
        ended_at(sessions.drop_last(), now).push(sessions.last().id@)
    } else {
        ended_at(sessions.drop_last(), now)
    }
}

/// Every session that is alive is one of the sessions.
pub proof fn lemma_alive_is_member(sessions: Seq<Session>, now: i64, i: int)
    requires
        0 <= i < alive_at(sessions, now).len(),
    ensures
        exists|k: int| 0 <= k < sessions.len() && #[trigger] sessions[k] == alive_at(sessions, now)[i],
    decreases sessions.len(),
{
    let front = sessions.drop_last();
    let kept = alive_at(front, now);
    if i < kept.len() {
        lemma_alive_is_member(front, now, i);
        let k = choose|k: int| 0 <= k < front.len() && #[trigger] front[k] == kept[i];
        assert(sessions[k] == front[k]);
    } else {
        assert(sessions[sessions.len() - 1] == alive_at(sessions, now)[i]);
    }
}

/// Sessions with distinct identifiers keep them distinct when those that
/// have ended are removed.
pub proof fn lemma_alive_distinct(sessions: Seq<Session>, now: i64)
    requires
        distinct(session_ids(sessions)),
    ensures
        distinct(session_ids(alive_at(sessions, now))),
    decreases sessions.len(),
{
    if sessions.len() > 0 {
        let front = sessions.drop_last();
        let ids = session_ids(sessions);
        assert forall|i: int, j: int| 0 <= i < j < front.len() implies #[trigger] session_ids(
            front,
        )[i] != #[trigger] session_ids(front)[j] by {
            assert(ids[i] == front[i].id@ && ids[j] == front[j].id@);
        }
        lemma_alive_distinct(front, now);
        let kept = alive_at(front, now);
        let all = alive_at(sessions, now);
        assert forall|i: int, j: int| 0 <= i < j < all.len() implies #[trigger] session_ids(all)[i]
            != #[trigger] session_ids(all)[j] by {
            if j < kept.len() {
                assert(session_ids(kept)[i] == session_ids(all)[i]);
                assert(session_ids(kept)[j] == session_ids(all)[j]);
            } else {
                lemma_alive_is_member(front, now, i);
                let k = choose|k: int| 0 <= k < front.len() && #[trigger] front[k] == kept[i];
                assert(ids[k] == front[k].id@);
                assert(ids[sessions.len() - 1] == sessions.last().id@);
            }
        }
    }
}

/// The texts of a sequence of identifiers.
pub open spec fn id_texts(ids: Seq<String>) -> Seq<Seq<char>> {
    ids.map_values(|id: String| id@)
}

/// The sessions by identifier.
#[derive(Debug)]
pub struct SessionManager {
    pub sessions: Vec<Session>,
}

impl SessionManager {
    /// No two sessions share an identifier.
    pub open spec fn wf(&self) -> bool {
        distinct(session_ids(self.sessions@))
    }

    /// A manager without sessions.
    pub fn new() -> (manager: Self)
        ensures
            manager.sessions@.len() == 0,
            manager.wf(),
    {
        SessionManager { sessions: Vec::new() }
    }

    /// Index of the session `id`, if there is one.
    pub fn find(&self, id: &str) -> (found: Option<usize>)
        ensures
            match found {
                Some(index) => index == first(session_ids(self.sessions@), id@) && index
                    < self.sessions@.len(),
                None => !contains_text(session_ids(self.sessions@), id@),
            },
    {
        let mut i: usize = 0;
        let ghost keys = session_ids(self.sessions@);
        while i < self.sessions.len()
            invariant
                i <= self.sessions.len(),
                keys == session_ids(self.sessions@),
                forall|n: int| 0 <= n < i ==> #[trigger] keys[n] != id@,
            decreases self.sessions.len() - i,
        {
            if same_text(self.sessions[i].id.as_str(), id) {
                proof {
                    lemma_first_is(keys, id@, i as int);
                }
                return Some(i);
            }
            i += 1;
        }
        proof {
            lemma_first_is(keys, id@, i as int);
        }
        None
    }

    /// Makes the session `id` at the time `now` and keeps it.
    pub fn create_session_with(&mut self, id: String, now: i64) -> (session: Session)
        requires
            now + SESSION_LIFETIME_MS <= i64::MAX,
        ensures
            session == Session::made(id, now),
            final(self).sessions@ == with_session(old(self).sessions@, session),
            old(self).wf() ==> final(self).wf(),
    {
        let session = Session::new_at(id, now);
        let ghost keys = session_ids(self.sessions@);
        proof {
            lemma_first(keys, session.id@);
        }
        match self.find(session.id.as_str()) {
            Some(index) => {
                self.sessions[index] = session.clone();
                assert(session_ids(self.sessions@) =~= keys);
            },
            None => {
                self.sessions.push(session.clone());
                assert(session_ids(self.sessions@) =~= keys.push(session.id@));
            },
        }
        session
    }

    /// Makes a session with a new identifier now and keeps it.
    pub fn create_session(&mut self) -> (session: Session)
        ensures
            exists|id: String, now: i64|
                id@.len() == 36 && is_clock_reading(now) && session == #[trigger] Session::made(
                    id,
                    now,
                ),
            final(self).sessions@ == with_session(old(self).sessions@, session),
            old(self).wf() ==> final(self).wf(),
    {
        let id = new_id();
        let now = now_millis();
        self.create_session_with(id, now)
    }

    /// Asks for the session `id` at the time `now`. A session that has
    /// ended is removed; one that is alive is used and given.
    pub fn get_session_at(&mut self, id: &str, now: i64) -> (session: Option<Session>)
        requires
            now + SESSION_LIFETIME_MS <= i64::MAX,
        ensures
            session == lookup(old(self).sessions@, id@, now),
            final(self).sessions@ == after_lookup(old(self).sessions@, id@, now),
            old(self).wf() ==> final(self).wf(),
    {
        let ghost keys = session_ids(self.sessions@);
        proof {
            lemma_first(keys, id@);
        }
        match self.find(id) {
            Some(index) => {
                if self.sessions[index].is_expired_at(now) {
                    self.sessions.remove(index);
                    assert(session_ids(self.sessions@) =~= keys.remove(index as int));
                    None
                } else {
                    let session = &mut self.sessions[index];
                    session.extend_at(now);
                    let found = session.clone();
                    assert(session_ids(self.sessions@) =~= keys);
                    Some(found)
                }
            },
            None => None,
        }
    }

    /// Asks for the session `id` now.
    pub fn get_session(&mut self, id: &str) -> (session: Option<Session>)
        ensures
            exists|now: i64|
                is_clock_reading(now) && session == #[trigger] lookup(old(self).sessions@, id@, now)
                    && final(self).sessions@ == after_lookup(old(self).sessions@, id@, now),
            old(self).wf() ==> final(self).wf(),
    {
        let now = now_millis();
        self.get_session_at(id, now)
    }

    /// Whether the session `id` is alive at `now`; asking uses it.
    pub fn validate_session_at(&mut self, id: &str, now: i64) -> (valid: bool)
        requires
            now + SESSION_LIFETIME_MS <= i64::MAX,
        ensures
            valid == lookup(old(self).sessions@, id@, now) is Some,
            final(self).sessions@ == after_lookup(old(self).sessions@, id@, now),
            old(self).wf() ==> final(self).wf(),
    {
        self.get_session_at(id, now).is_some()
    }

    /// Whether the session `id` is alive; asking uses it.
    pub fn validate_session(&mut self, id: &str) -> (valid: bool)
        ensures
            exists|now: i64|
                is_clock_reading(now) && valid == (#[trigger] lookup(
                    old(self).sessions@,
                    id@,
                    now,
                ) is Some) && final(self).sessions@ == after_lookup(old(self).sessions@, id@, now),
            old(self).wf() ==> final(self).wf(),
    {
        let now = now_millis();
        self.validate_session_at(id, now)
    }

    /// Removes the sessions that have ended at `now` and gives their
    /// identifiers.
    pub fn cleanup_expired_sessions_at(&mut self, now: i64) -> (removed: Vec<String>)
        ensures
            final(self).sessions@ == alive_at(old(self).sessions@, now),
            id_texts(removed@) == ended_at(old(self).sessions@, now),
            old(self).wf() ==> final(self).wf(),
    {
        proof {
            if self.wf() {
                lemma_alive_distinct(self.sessions@, now);
            }
        }
        let mut removed: Vec<String> = Vec::new();
        let mut i: usize = 0;
        let ghost before = self.sessions@;
        let ghost mut seen: int = 0;
        assert(before.take(0) =~= Seq::<Session>::empty());
        assert(before.skip(0) =~= before);
        assert(id_texts(removed@) =~= Seq::<Seq<char>>::empty());
        while i < self.sessions.len()
            invariant
                0 <= seen <= before.len(),
                i <= self.sessions.len(),
                before == old(self).sessions@,
                i == alive_at(before.take(seen), now).len(),
                self.sessions@ == alive_at(before.take(seen), now) + before.skip(seen),
                id_texts(removed@) == ended_at(before.take(seen), now),
            decreases self.sessions.len() - i,
        {
            let ghost kept = alive_at(before.take(seen), now);
            let ghost held = self.sessions@;
            let ghost gone = removed@;
            assert(held[i as int] == before.skip(seen)[0]);
            assert(before.take(seen + 1).drop_last() == before.take(seen));
            assert(before.take(seen + 1).last() == before[seen]);
            if self.sessions[i].is_expired_at(now) {
                let session = self.sessions.remove(i);
                removed.push(session.id);
                assert(self.sessions@ =~= kept + before.skip(seen + 1));
                assert(id_texts(removed@) =~= id_texts(gone).push(before[seen].id@));
            } else {
                assert(held =~= kept.push(before[seen]) + before.skip(seen + 1));
                i += 1;
            }
            proof {
                seen = seen + 1;
            }
        }
        assert(before.skip(seen) =~= Seq::<Session>::empty()) by {
            assert(self.sessions@.len() == i + before.skip(seen).len());
        }
        assert(before.take(seen) =~= before);
        assert(self.sessions@ =~= alive_at(before, now));
        removed
    }

    /// Removes the sessions that have ended and gives their identifiers.
    pub fn cleanup_expired_sessions(&mut self) -> (removed: Vec<String>)
        ensures
            exists|now: i64|
                is_clock_reading(now) && final(self).sessions@ == #[trigger] alive_at(
                    old(self).sessions@,
                    now,
                ) && id_texts(removed@) == ended_at(old(self).sessions@, now),
            old(self).wf() ==> final(self).wf(),
    {
        let now = now_millis();
        self.cleanup_expired_sessions_at(now)
    }

    /// Number of sessions that are kept.
    pub fn get_session_count(&self) -> (count: usize)
        ensures
            count == self.sessions@.len(),
    {
        self.sessions.len()
    }
}

} // verus!

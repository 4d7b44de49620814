//! A session: the identity under which a caller plays.

use vstd::prelude::*;
use crate::outside::{is_clock_reading, now_millis};

verus! {

/// Time that a session lives after it was last used, in milliseconds: 24
/// hours.
pub const SESSION_LIFETIME_MS: i64 = 86_400_000;

/// A session with the times of its making, of its last use and of its end.
#[derive(Debug, PartialEq, Eq)]
pub struct Session {
    pub id: String,
    pub created_at: i64,
    pub last_active: i64,
    pub expires_at: i64,
}

impl Clone for Session {
    fn clone(&self) -> (r: Self)
        ensures
            r == *self,
    {
        Session {
            id: self.id.clone(),
            created_at: self.created_at,
            last_active: self.last_active,
            expires_at: self.expires_at,
        }
    }
}

impl Session {
    /// A session as it is made at `now`.
    pub open spec fn made(id: String, now: i64) -> Session {
        Session {
            id,
            created_at: now,
            last_active: now,
            expires_at: (now + SESSION_LIFETIME_MS) as i64,
        }
    }

    /// Whether the end of the session lies before `now`.
    pub open spec fn expired_at(self, now: i64) -> bool {
        now > self.expires_at
    }

    /// The session as a use at `now` leaves it: it lives a whole lifetime
    /// from then.
    pub open spec fn used_at(self, now: i64) -> Session {
        Session { last_active: now, expires_at: (now + SESSION_LIFETIME_MS) as i64, ..self }
    }

    /// Makes a session at the time `now`.
    pub fn new_at(id: String, now: i64) -> (session: Self)
        requires
            now + SESSION_LIFETIME_MS <= i64::MAX,
        ensures
            session == Self::made(id, now),
    {
        Session { id, created_at: now, last_active: now, expires_at: now + SESSION_LIFETIME_MS }
    }

    /// Makes a session now.
    pub fn new(id: String) -> (session: Self)
        ensures
            exists|now: i64| is_clock_reading(now) && session == #[trigger] Self::made(id, now),
    {
        let now = now_millis();
        Self::new_at(id, now)
    }

    /// Whether the end of the session lies before `now`.
    pub fn is_expired_at(&self, now: i64) -> (expired: bool)
        ensures
            expired == self.expired_at(now),
    {
        now > self.expires_at
    }

    /// Whether the session has ended.
    pub fn is_expired(&self) -> (expired: bool)
        ensures
            exists|now: i64| is_clock_reading(now) && expired == #[trigger] self.expired_at(now),
    {
        let now = now_millis();
        self.is_expired_at(now)
    }

    /// Whether the session has not ended at `now`.
    pub fn is_valid_at(&self, now: i64) -> (valid: bool)
        ensures
            valid == !self.expired_at(now),
    {
        !self.is_expired_at(now)
    }

    /// Whether the session has not ended.
    pub fn is_valid(&self) -> (valid: bool)
        ensures
            exists|now: i64| is_clock_reading(now) && valid == !#[trigger] self.expired_at(now),
    {
        let now = now_millis();
        self.is_valid_at(now)
    }

    /// Notes a use of the session at `now`.
    pub fn extend_at(&mut self, now: i64)
        requires
            now + SESSION_LIFETIME_MS <= i64::MAX,
        ensures
            *final(self) == old(self).used_at(now),
    {
        self.last_active = now;
        self.expires_at = now + SESSION_LIFETIME_MS;
    }

    /// Notes a use of the session now.
    pub fn extend(&mut self)
        ensures
            exists|now: i64| is_clock_reading(now) && *final(self) == #[trigger] old(self).used_at(now),
    {
        let now = now_millis();
        self.extend_at(now)
    }

    /// Notes a use of the session now.
    pub fn touch(&mut self)
        ensures
            exists|now: i64| is_clock_reading(now) && *final(self) == #[trigger] old(self).used_at(now),
    {
        self.extend()
    }
}

} // verus!

//! Finding out which session a request belongs to.

use vstd::prelude::*;
use vstd::utf8::{decode_utf8, valid_utf8};
use crate::managers::session::{after_lookup, lookup, with_session, SessionManager};
use crate::models::session::{Session, SESSION_LIFETIME_MS};
use crate::outside::{is_clock_reading, new_id, now_millis};

verus! {

/// The bytes `raiku_session=`, with which the cookie of the session starts.
pub open spec fn cookie_prefix() -> Seq<u8> {
    seq![114u8, 97u8, 105u8, 107u8, 117u8, 95u8, 115u8, 101u8, 115u8, 115u8, 105u8, 111u8, 110u8, 61u8]
}

/// Number of bytes of the prefix.
pub const COOKIE_PREFIX_LENGTH: usize = 14;

/// Whether a byte is white space of ASCII.
pub open spec fn is_space(byte: u8) -> bool {
    byte == 32 || (9 <= byte <= 13)
}

/// The end of the cookie that starts at `from`: the place of the next `;`
/// before `to`, or `to`.
pub open spec fn cookie_end(header: Seq<u8>, from: int, to: int) -> int
    decreases to - from,
{
    if from >= to {
        to
    } else if header[from] == 59 {
        from
    } else {
        cookie_end(header, from + 1, to)
    }
}

/// The place of the first byte from `from` on that is no white space,
/// before `to`, or `to`.
pub open spec fn after_space(header: Seq<u8>, from: int, to: int) -> int
    decreases to - from,
{
    if from >= to {
        to
    } else if !is_space(header[from]) {
        from
    } else {
        after_space(header, from + 1, to)
    }
}

/// The end of the value that starts at `from`: the place of the next `=`
/// before `to`, or `to`.
pub open spec fn value_end(header: Seq<u8>, from: int, to: int) -> int
    decreases to - from,
{
    if from >= to {
        to
    } else if header[from] == 61 {
        from
    } else {
        value_end(header, from + 1, to)
    }
}

/// Whether the prefix stands at `at` and ends by `to`.
pub open spec fn prefix_at(header: Seq<u8>, at: int, to: int) -> bool {
    at + COOKIE_PREFIX_LENGTH <= to && header.subrange(at, at + COOKIE_PREFIX_LENGTH)
        == cookie_prefix()
}

/// The value of the session cookie among the cookies from `from` on: the
/// cookies are parted by `;`; the first that starts with the prefix, white
/// space before it aside, holds the value, which ends at the next `=` or at
/// the end of the cookie.
pub open spec fn session_value_from(header: Seq<u8>, from: int) -> Option<Seq<u8>>
    decreases header.len() - from,
{
    if from < 0 || from > header.len() {
        None
    } else {
        let end = cookie_end(header, from, header.len() as int);
        let at = after_space(header, from, end);
        if prefix_at(header, at, end) {
            Some(
                header.subrange(
                    at + COOKIE_PREFIX_LENGTH,
                    value_end(header, at + COOKIE_PREFIX_LENGTH, end),
                ),
            )
        } else if end >= header.len() || end < from {
            None
        } else {
            session_value_from(header, end + 1)
        }
    }
}

/// The value of the session cookie in a `Cookie` header.
pub open spec fn session_value(header: Seq<u8>) -> Option<Seq<u8>> {
    session_value_from(header, 0)
}

/// The bytes of the value of the session cookie in a `Cookie` header, if
/// the header holds such a cookie.
pub fn session_cookie_value(header: &[u8]) -> (value: Option<Vec<u8>>)
    ensures
        match value {
            Some(bytes) => session_value(header@) == Some(bytes@),
            None => session_value(header@) is None,
        },
{
    let length = header.len();
    let mut from: usize = 0;
    loop
        invariant
            from <= length,
            length == header@.len(),
            session_value(header@) == session_value_from(header@, from as int),
        decreases length - from,
    {
        let mut end = from;
        while end < length && header[end] != 59
            invariant
                from <= end <= length,
                length == header@.len(),
                cookie_end(header@, from as int, length as int) == cookie_end(
                    header@,
                    end as int,
                    length as int,
                ),
            decreases length - end,
        {
            end += 1;
        }
        let mut at = from;
        while at < end && (header[at] == 32 || (9 <= header[at] && header[at] <= 13))
            invariant
                from <= at <= end <= length,
                length == header@.len(),
                after_space(header@, from as int, end as int) == after_space(
                    header@,
                    at as int,
                    end as int,
                ),
            decreases end - at,
        {
            at += 1;
        }
        if end - at >= COOKIE_PREFIX_LENGTH && starts_with_prefix(header, at) {
            let start = at + COOKIE_PREFIX_LENGTH;
            let mut stop = start;
            while stop < end && header[stop] != 61
                invariant
                    start <= stop <= end <= length,
                    length == header@.len(),
                    value_end(header@, start as int, end as int) == value_end(
                        header@,
                        stop as int,
                        end as int,
                    ),
                decreases end - stop,
            {
                stop += 1;
            }
            let mut bytes: Vec<u8> = Vec::new();
            let mut i = start;
            while i < stop
                invariant
                    start <= i <= stop <= length,
                    length == header@.len(),
                    bytes@ == header@.subrange(start as int, i as int),
                decreases stop - i,
            {
                bytes.push(header[i]);
                assert(header@.subrange(start as int, i + 1) == header@.subrange(
                    start as int,
                    i as int,
                ).push(header@[i as int]));
                i += 1;
            }
            return Some(bytes);
        }
        if end >= length {
            return None;
        }
        from = end + 1;
    }
}

/// Whether the prefix stands at `at`.
fn starts_with_prefix(header: &[u8], at: usize) -> (starts: bool)
    requires
        at + COOKIE_PREFIX_LENGTH <= header@.len(),
    ensures
        starts == (header@.subrange(at as int, at + COOKIE_PREFIX_LENGTH) == cookie_prefix()),
{
    let prefix: [u8; 14] = [114, 97, 105, 107, 117, 95, 115, 101, 115, 115, 105, 111, 110, 61];
    assert(prefix@ =~= cookie_prefix());
    let length = header.len();
    let mut i: usize = 0;
    while i < COOKIE_PREFIX_LENGTH
        invariant
            i <= COOKIE_PREFIX_LENGTH,
            at + COOKIE_PREFIX_LENGTH <= header@.len(),
            length == header@.len(),
            prefix@ == cookie_prefix(),
            forall|n: int| 0 <= n < i ==> header@[at + n] == #[trigger] prefix@[n],
        decreases COOKIE_PREFIX_LENGTH - i,
    {
        if header[at + i] != prefix[i] {
            assert(header@.subrange(at as int, at + COOKIE_PREFIX_LENGTH)[i as int]
                != cookie_prefix()[i as int]);
            return false;
        }
        i += 1;
    }
    assert(header@.subrange(at as int, at + COOKIE_PREFIX_LENGTH) =~= cookie_prefix());
    true
}

/// The text that bytes spell in UTF-8, if they spell one.
pub open spec fn utf8_text(bytes: Seq<u8>) -> Option<Seq<char>> {
    if valid_utf8(bytes) {
        Some(decode_utf8(bytes))
    } else {
        None
    }
}

/// Reads bytes as text: `String::from_utf8`, with `None` for bytes that
/// are no UTF-8.
///
/// Assumed: the call takes the bytes that are valid UTF-8, and gives the
/// text that they decode to.
#[verifier::external_body]
fn text_of(bytes: Vec<u8>) -> (text: Option<String>)
    ensures
        match text {
            Some(text) => utf8_text(bytes@) == Some(text@),
            None => utf8_text(bytes@) is None,
        },
{
    String::from_utf8(bytes).ok()
}

/// The session that a `Cookie` header names, as text.
pub open spec fn cookie_session(header: Seq<u8>) -> Option<Seq<char>> {
    match session_value(header) {
        Some(bytes) => utf8_text(bytes),
        None => None,
    }
}

/// The session that a `Cookie` header names, if it names one.
pub fn session_from_cookie(header: &[u8]) -> (session_id: Option<String>)
    ensures
        match session_id {
            Some(id) => cookie_session(header@) == Some(id@),
            None => cookie_session(header@) is None,
        },
{
    match session_cookie_value(header) {
        Some(bytes) => text_of(bytes),
        None => None,
    }
}

/// The session that a request claims: the one of the cookie, or else the
/// one of the query.
pub open spec fn claimed_session(cookie: Option<Seq<char>>, query: Option<Seq<char>>) -> Option<
    Seq<char>,
> {
    match cookie {
        Some(id) => Some(id),
        None => query,
    }
}

/// A request that names no session, or one that is not alive.
#[derive(Clone, Copy, Debug, PartialEq, Eq, Structural)]
pub struct Unauthorized;

/// Whether `after` and `result` are what finding the session of a request
/// at `now` makes of the sessions `before`.
pub open spec fn is_session_found(
    before: Seq<Session>,
    after: Seq<Session>,
    result: Result<String, Unauthorized>,
    cookie_header: Option<&[u8]>,
    query_session_id: Option<&String>,
    now: i64,
) -> bool {
    let cookie = match cookie_header {
        Some(header) => cookie_session(header@),
        None => None,
    };
    let query = match query_session_id {
        Some(id) => Some(id@),
        None => None,
    };
    match claimed_session(cookie, query) {
        Some(id) => {
            &&& after == after_lookup(before, id, now)
            &&& match result {
                Ok(found) => found@ == id && lookup(before, id, now)
                    is Some,
                Err(_) => lookup(before, id, now) is None,
            }
        },
        None => result is Err && after == before,
    }
}

/// Whether `after` and `result` are what giving a request its session at
/// `now` makes of the sessions `before`, where a new session is named
/// `fresh_id`.
pub open spec fn is_session_given(
    before: Seq<Session>,
    after: Seq<Session>,
    result: (Session, bool),
    cookie_header: Option<&[u8]>,
    fresh_id: String,
    now: i64,
) -> bool {
    let cookie = match cookie_header {
        Some(header) => cookie_session(header@),
        None => None,
    };
    let found = match cookie {
        Some(id) => lookup(before, id, now),
        None => None,
    };
    let looked = match cookie {
        Some(id) => after_lookup(before, id, now),
        None => before,
    };
    match found {
        Some(session) => {
            &&& result.0 == session
            &&& !result.1
            &&& after == looked
        },
        None => {
            &&& result.0 == Session::made(fresh_id, now)
            &&& result.1
            &&& after == with_session(looked, result.0)
        },
    }
}

/// Finds the session of a request at the time `now`: the session that the
/// cookie names, or else the one that the query names, if it is alive. The
/// session is used by that.
pub fn get_session_from_cookie_at(
    cookie_header: Option<&[u8]>,
    query_session_id: Option<&String>,
    sessions: &mut SessionManager,
    now: i64,
) -> (result: Result<String, Unauthorized>)
    requires
        now + SESSION_LIFETIME_MS <= i64::MAX,
    ensures
        is_session_found(
            old(sessions).sessions@,
            final(sessions).sessions@,
            result,
            cookie_header,
            query_session_id,
            now,
        ),
        old(sessions).wf() ==> final(sessions).wf(),
{
    let from_cookie = match cookie_header {
        Some(header) => session_from_cookie(header),
        None => None,
    };
    let claimed = match from_cookie {
        Some(id) => Some(id),
        None => match query_session_id {
            Some(id) => Some(id.clone()),
            None => None,
        },
    };
    match claimed {
        Some(id) => {
            if sessions.validate_session_at(id.as_str(), now) {
                Ok(id)
            } else {
                Err(Unauthorized)
            }
        },
        None => Err(Unauthorized),
    }
}

/// Gives a request its session at the time `now`: the session that the
/// cookie names, used, if it is alive; else a new session under the name
/// `fresh_id`. The flag says whether the session is new.
pub fn create_or_validate_session_with(
    cookie_header: Option<&[u8]>,
    sessions: &mut SessionManager,
    fresh_id: String,
    now: i64,
) -> (result: (Session, bool))
    requires
        now + SESSION_LIFETIME_MS <= i64::MAX,
    ensures
        is_session_given(
            old(sessions).sessions@,
            final(sessions).sessions@,
            result,
            cookie_header,
            fresh_id,
            now,
        ),
        old(sessions).wf() ==> final(sessions).wf(),
{
    let from_cookie = match cookie_header {
        Some(header) => session_from_cookie(header),
        None => None,
    };
    let found = match from_cookie {
        Some(id) => sessions.get_session_at(id.as_str(), now),
        None => None,
    };
    match found {
        Some(session) => (session, false),
        None => (sessions.create_session_with(fresh_id, now), true),
    }
}

/// Gives a request its session now; a new session gets a new name.
pub fn create_or_validate_session(cookie_header: Option<&[u8]>, sessions: &mut SessionManager) -> (result:
    (Session, bool))
    ensures
        exists|fresh_id: String, now: i64|
            fresh_id@.len() == 36 && is_clock_reading(now) && #[trigger] is_session_given(
                old(sessions).sessions@,
                final(sessions).sessions@,
                result,
                cookie_header,
                fresh_id,
                now,
            ),
        old(sessions).wf() ==> final(sessions).wf(),
{
    let fresh_id = new_id();
    let now = now_millis();
    create_or_validate_session_with(cookie_header, sessions, fresh_id, now)
}

/// Finds the session of a request now.
pub fn get_session_from_cookie(
    cookie_header: Option<&[u8]>,
    query_session_id: Option<&String>,
    sessions: &mut SessionManager,
) -> (result: Result<String, Unauthorized>)
    ensures
        exists|now: i64|
            is_clock_reading(now) && #[trigger] is_session_found(
                old(sessions).sessions@,
                final(sessions).sessions@,
                result,
                cookie_header,
                query_session_id,
                now,
            ),
        old(sessions).wf() ==> final(sessions).wf(),
{
    let now = now_millis();
    get_session_from_cookie_at(cookie_header, query_session_id, sessions, now)
}

} // verus!

//! The session validator: a bearer token authorizes a mutating request
//! when a session record exists for it whose creation time, read as unix
//! seconds, lies within the time-to-live of seven days. The decision on
//! `(now, created_at)` is a pure function; the store only supplies the
//! stored creation time.

use vstd::prelude::*;
use crate::dec::spec_parse_i64;
use crate::dec::parse_i64_chars;
use crate::store::SessionStore;
use crate::text::to_chars;
use vstd::string::StrSliceExecFns;
use vstd::string::StringExecFns;

verus! {

/// Seconds in the session time-to-live: seven days.
pub const TTL_SECONDS: i64 = 604800;

/// A session created at `created_at` is valid at `now` when the stored
/// text parses as unix seconds, adding the time-to-live stays within the
/// representable range (failing closed otherwise), and `now` is no later
/// than that bound.
pub open spec fn spec_session_valid(now: int, created_at: Seq<char>) -> bool {
    match spec_parse_i64(created_at) {
        Some(v) => v + TTL_SECONDS <= i64::MAX && now <= v + TTL_SECONDS,
        None => false,
    }
}

/// The store key of a session token.
pub open spec fn spec_session_key(token: Seq<char>) -> Seq<char> {
    "serj-service-session||"@ + token
}

/// What authorizes a token against the sessions of the store at `now`.
pub open spec fn spec_is_authorized(
    sessions: Map<Seq<char>, Seq<char>>,
    token: Seq<char>,
    now: int,
) -> bool {
    &&& token.len() > 0
    &&& sessions.contains_key(spec_session_key(token))
    &&& spec_session_valid(now, sessions[spec_session_key(token)])
}

/// The pure session-validity decision: true exactly when `created_at`
/// parses as an integer, the time-to-live can be added without leaving
/// the representable range, and `now` lies within it.
pub fn is_created_at_valid(now: i64, created_at: &str) -> (r: bool)
    ensures
        r == spec_session_valid(now as int, created_at@),
{
    let chars = to_chars(created_at);
    match parse_i64_chars(chars.as_slice()) {
        Some(v) => match v.checked_add(TTL_SECONDS) {
            Some(limit) => now <= limit,
            None => false,
        },
        None => false,
    }
}

/// Whenever the time-to-live bound is representable, validity is exactly
/// "the text parses as an integer and `now` is within seven days of it";
/// an empty or non-numeric text never validates.
pub proof fn lemma_session_valid_iff(now: int, created_at: Seq<char>)
    requires
        spec_parse_i64(created_at) matches Some(v) ==> v + TTL_SECONDS <= i64::MAX,
    ensures
        spec_session_valid(now, created_at) <==> (spec_parse_i64(created_at) matches Some(v) && now
            <= v + TTL_SECONDS),
        created_at.len() == 0 ==> !spec_session_valid(now, created_at),
{
}

/// Decides whether a bearer token authorizes a mutating request.
pub struct AuthService<S: SessionStore> {
    pub store: S,
    pub is_insecure: bool,
}

impl<S: SessionStore> AuthService<S> {
    pub fn new(store: S, is_insecure: bool) -> (r: AuthService<S>)
        ensures
            r.store == store,
            r.is_insecure == is_insecure,
    {
        AuthService { store, is_insecure }
    }

    /// Whether `token` authorizes a request at `now`. In insecure mode
    /// every token passes; otherwise an empty token never does, and a
    /// store that obeys its model answers exactly as the sessions say.
    pub fn is_logged(&mut self, token: &str, now: i64) -> (r: bool)
        ensures
            final(self).store.sessions() == old(self).store.sessions(),
            final(self).store.obeys() == old(self).store.obeys(),
            final(self).is_insecure == old(self).is_insecure,
            old(self).is_insecure ==> r,
            !old(self).is_insecure && old(self).store.obeys() ==> r == spec_is_authorized(
                old(self).store.sessions(),
                token@,
                now as int,
            ),
            !old(self).is_insecure && r ==> token@.len() > 0,
    {
        if self.is_insecure {
            return true;
        }
        if token.unicode_len() == 0 {
            return false;
        }
        let mut session_key = String::from_str("serj-service-session||");
        session_key.append(token);
        match self.store.get_created_at(session_key.as_str()) {
            Some(created_at) => is_created_at_valid(now, created_at.as_str()),
            None => false,
        }
    }
}

} // verus!

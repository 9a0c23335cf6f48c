//! The library's calls into outside crates, each behind a trusted item:
//! the random identifier mint, percent-decoding, URL validity, JSON field
//! lookup, and the redis-backed stores. Every contract here is believed,
//! not proved; each doc comment names what it relies on.

use vstd::prelude::*;
use crate::store::{RecordStore, SessionStore, StoreError};

verus! {

// ---------- random identifiers ----------

pub open spec fn is_alnum_char(c: char) -> bool {
    (48 <= (c as u32) && (c as u32) <= 57) || (65 <= (c as u32) && (c as u32) <= 90) || (97 <= (
    c as u32) && (c as u32) <= 122)
}

/// Relies on rand's `Alphanumeric` distribution: `sample_string` returns
/// exactly the asked number of characters, each drawn from a-z, A-Z, 0-9.
/// Which characters come is random, so only their shape is promised.
#[verifier::external_body]
pub(crate) fn mint_id() -> (r: String)
    ensures
        r@.len() == 10,
        forall|i: int| 0 <= i < r@.len() ==> is_alnum_char(#[trigger] r@[i]),
{
    rand::distr::SampleString::sample_string(&rand::distr::Alphanumeric, &mut rand::rng(), 10)
}

// ---------- percent decoding ----------

/// What urlencoding's `decode` returns on this text: the decoded text,
/// or nothing where decoding fails. The result depends on the text alone.
pub uninterp spec fn percent_decoded(s: Seq<char>) -> Option<Seq<char>>;

/// Relies on urlencoding::decode: percent-encoded sequences are decoded
/// and everything else is kept. It fails only when the decoded bytes are
/// not UTF-8, so an input without a `%` always decodes, to itself.
#[verifier::external_body]
pub(crate) fn percent_decode(s: &str) -> (r: Option<String>)
    ensures
        (r is Some) == (percent_decoded(s@) is Some),
        r is Some ==> r->Some_0@ == percent_decoded(s@)->Some_0,
        !s@.contains('%') ==> r is Some && r->Some_0@ == s@,
{
    match urlencoding::decode(s) {
        Ok(c) => Some(c.into_owned()),
        Err(_) => None,
    }
}

// ---------- URL validity ----------

/// Whether url's `Url::parse` accepts this text.
pub uninterp spec fn url_wellformed(s: Seq<char>) -> bool;

/// Relies on url::Url::parse to judge whether the text is a well-formed
/// URL; on failure the error's message is returned.
#[verifier::external_body]
pub(crate) fn check_url(s: &str) -> (r: Result<(), String>)
    ensures
        (r is Ok) == url_wellformed(s@),
{
    match url::Url::parse(s) {
        Ok(_) => Ok(()),
        Err(e) => Err(e.to_string()),
    }
}

// ---------- JSON field lookup ----------

/// The string value of the named member, when serde_json parses the text
/// as an object carrying one; the result depends on the arguments alone.
pub uninterp spec fn json_field_of(s: Seq<char>, field: Seq<char>) -> Option<Seq<char>>;

/// Relies on serde_json's `from_str`, `Value::get` and `Value::as_str`:
/// the text parsed as JSON, the member looked up, its string value
/// returned. `None` when the text is not JSON, the member is missing, or
/// its value is not a string.
#[verifier::external_body]
pub(crate) fn json_string_field(s: &str, field: &str) -> (r: Option<String>)
    ensures
        (r is Some) == (json_field_of(s@, field@) is Some),
        r is Some ==> r->Some_0@ == json_field_of(s@, field@)->Some_0,
{
    let parsed: serde_json::Value = match serde_json::from_str(s) {
        Ok(v) => v,
        Err(_) => return None,
    };
    let member = match parsed.get(field) {
        Some(m) => m,
        None => return None,
    };
    match member.as_str() {
        Some(v) => Some(v.to_string()),
        None => None,
    }
}

// ---------- the redis-backed stores ----------

#[verifier::external_type_specification]
#[verifier::external_body]
pub struct ExRedisConnection(redis::Connection);

/// A record store backed by a redis server. Its answers come over the
/// network from state this process does not own, so it makes no model
/// promises: `obeys()` is false and every model-bound clause is vacuous.
pub struct RedisStore {
    conn: redis::Connection,
}

impl RedisStore {
    /// Relies on redis::Client::open and Client::get_connection to reach
    /// the server named by the connection string.
    #[verifier::external_body]
    pub fn new(conn_string: &str) -> (r: Result<RedisStore, StoreError>) {
        let client = match redis::Client::open(conn_string) {
            Ok(c) => c,
            Err(e) => return Err(StoreError { msg: e.to_string() }),
        };
        match client.get_connection() {
            Ok(conn) => Ok(RedisStore { conn }),
            Err(e) => Err(StoreError { msg: e.to_string() }),
        }
    }
}

impl RedisStore {
    /// Relies on redis GET through redis::TypedCommands::get; an absent
    /// key answers `None`. What comes back is the server's business, so
    /// nothing is promised of it.
    #[verifier::external_body]
    fn get_raw(&mut self, key: &str) -> (r: Result<Option<String>, StoreError>) {
        match redis::TypedCommands::get(&mut self.conn, key) {
            Ok(v) => Ok(v),
            Err(e) => Err(StoreError { msg: e.to_string() }),
        }
    }

    /// Relies on redis SET through redis::TypedCommands::set.
    #[verifier::external_body]
    fn put_raw(&mut self, key: &str, value: &str) -> (r: Result<(), StoreError>) {
        match redis::TypedCommands::set(&mut self.conn, key, value) {
            Ok(()) => Ok(()),
            Err(e) => Err(StoreError { msg: e.to_string() }),
        }
    }

    /// Relies on redis DEL through redis::TypedCommands::del, whose count
    /// says how many keys were removed.
    #[verifier::external_body]
    fn del_raw(&mut self, key: &str) -> (r: Result<u64, StoreError>) {
        match redis::TypedCommands::del(&mut self.conn, key) {
            Ok(n) => Ok(n as u64),
            Err(e) => Err(StoreError { msg: e.to_string() }),
        }
    }

    /// Relies on redis SADD through redis::TypedCommands::sadd.
    #[verifier::external_body]
    fn set_add_raw(&mut self, set_key: &str, member: &str) -> (r: Result<(), StoreError>) {
        match redis::TypedCommands::sadd(&mut self.conn, set_key, member) {
            Ok(_) => Ok(()),
            Err(e) => Err(StoreError { msg: e.to_string() }),
        }
    }

    /// Relies on redis SREM through redis::TypedCommands::srem, whose
    /// count says how many members were removed.
    #[verifier::external_body]
    fn set_remove_raw(&mut self, set_key: &str, member: &str) -> (r: Result<u64, StoreError>) {
        match redis::TypedCommands::srem(&mut self.conn, set_key, member) {
            Ok(n) => Ok(n as u64),
            Err(e) => Err(StoreError { msg: e.to_string() }),
        }
    }

    /// Relies on redis SMEMBERS through redis::TypedCommands::smembers.
    #[verifier::external_body]
    fn set_members_raw(&mut self, set_key: &str) -> (r: Result<Vec<String>, StoreError>) {
        match redis::TypedCommands::smembers(&mut self.conn, set_key) {
            Ok(ms) => Ok(ms.into_iter().collect()),
            Err(e) => Err(StoreError { msg: e.to_string() }),
        }
    }

    /// Relies on redis SISMEMBER through redis::TypedCommands::sismember.
    #[verifier::external_body]
    fn set_is_member_raw(&mut self, set_key: &str, member: &str) -> (r: Result<bool, StoreError>) {
        match redis::TypedCommands::sismember(&mut self.conn, set_key, member) {
            Ok(b) => Ok(b),
            Err(e) => Err(StoreError { msg: e.to_string() }),
        }
    }
}

impl RecordStore for RedisStore {
    open spec fn records(&self) -> Map<Seq<char>, Seq<char>> {
        Map::empty()
    }

    open spec fn index(&self) -> Set<Seq<char>> {
        Set::empty()
    }

    open spec fn obeys(&self) -> bool {
        false
    }

    fn get(&mut self, key: &str) -> (r: Result<Option<String>, StoreError>) {
        self.get_raw(key)
    }

    fn put(&mut self, key: &str, value: &str) -> (r: Result<(), StoreError>) {
        self.put_raw(key, value)
    }

    fn del(&mut self, key: &str) -> (r: Result<u64, StoreError>) {
        self.del_raw(key)
    }

    fn set_add(&mut self, member: &str) -> (r: Result<(), StoreError>) {
        self.set_add_raw("short_urls", member)
    }

    fn set_remove(&mut self, member: &str) -> (r: Result<u64, StoreError>) {
        self.set_remove_raw("short_urls", member)
    }

    fn set_members(&mut self) -> (r: Result<Vec<String>, StoreError>) {
        self.set_members_raw("short_urls")
    }

    fn set_is_member(&mut self, member: &str) -> (r: Result<bool, StoreError>) {
        self.set_is_member_raw("short_urls", member)
    }
}

/// A session store backed by a redis server; as with `RedisStore`, it
/// promises nothing of its answers.
pub struct RedisSessionStore {
    conn: redis::Connection,
}

impl RedisSessionStore {
    /// Relies on redis::Client::open and Client::get_connection to reach
    /// the server named by the connection string.
    #[verifier::external_body]
    pub fn new(conn_string: &str) -> (r: Result<RedisSessionStore, StoreError>) {
        let client = match redis::Client::open(conn_string) {
            Ok(c) => c,
            Err(e) => return Err(StoreError { msg: e.to_string() }),
        };
        match client.get_connection() {
            Ok(conn) => Ok(RedisSessionStore { conn }),
            Err(e) => Err(StoreError { msg: e.to_string() }),
        }
    }
}

impl RedisSessionStore {
    /// Relies on redis GET through redis::TypedCommands::get; an absent
    /// key or a failed call answers `None`.
    #[verifier::external_body]
    fn get_created_at_raw(&mut self, key: &str) -> (r: Option<String>) {
        match redis::TypedCommands::get(&mut self.conn, key) {
            Ok(v) => v,
            Err(_) => None,
        }
    }
}

impl SessionStore for RedisSessionStore {
    open spec fn sessions(&self) -> Map<Seq<char>, Seq<char>> {
        Map::empty()
    }

    open spec fn obeys(&self) -> bool {
        false
    }

    fn get_created_at(&mut self, key: &str) -> (r: Option<String>) {
        self.get_created_at_raw(key)
    }
}

} // verus!

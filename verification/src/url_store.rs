//! The lookup service: the cache in front of the durable store of short URLs.
//!
//! The durable store is reached by whoever runs the service, not from here.
//! A lookup is therefore two steps. [`UrlStore::get`] asks the cache and says
//! whether the store has to be asked at all; [`UrlStore::complete_get`] takes
//! the store's answer and decides what is cached and what is returned. An
//! insert never touches the cache: [`UrlStore::insert`] makes the record to
//! write, and [`UrlStore::complete_insert`] turns the store's answer into the
//! caller's.

use crate::cache::{after_get, after_insert, after_sweep, lookup, Table, TtlCache};
use vstd::prelude::*;

verus! {

/// The number of characters in a short key.
pub const SHORT_KEY_LEN: usize = 8;

/// The characters a short key is made of: letters, digits, `_` and `-`.
pub open spec fn is_url_safe(c: char) -> bool {
    ||| c == '_'
    ||| c == '-'
    ||| ('0' <= c && c <= '9')
    ||| ('a' <= c && c <= 'z')
    ||| ('A' <= c && c <= 'Z')
}

/// A string of `len` URL-safe characters.
pub open spec fn is_token(s: Seq<char>, len: int) -> bool {
    &&& s.len() == len
    &&& forall|i: int| 0 <= i < s.len() ==> is_url_safe(#[trigger] s[i])
}

/// A failure of the durable store, with the store's own description of it.
#[derive(Clone, Debug, PartialEq, Eq)]
pub struct StoreError {
    pub message: String,
}

/// One record of the durable store.
#[derive(Clone, Debug)]
pub struct ShortUrlRow {
    /// The short key, unique in the store.
    pub shorturl: String,
    /// The URL the key stands for.
    pub longurl: String,
    /// When the record was made, in seconds since the Unix epoch.
    pub created_at: i64,
}

/// What the cache could say about a key.
#[derive(Clone, Debug, PartialEq, Eq)]
pub enum Lookup {
    /// The cache holds the key: this is its URL, and the store is not asked.
    Hit(String),
    /// The cache does not hold the key: the store has to be asked.
    Miss,
}

/// What the cache holds after the durable store has answered a lookup of
/// `key`: a URL that the store returned is cached, and nothing else is.
pub open spec fn after_reply(
    table: Table,
    key: Seq<char>,
    reply: Result<Option<String>, StoreError>,
    now: int,
    ttl: int,
) -> Table {
    match reply {
        Ok(Some(url)) => after_insert(table, key, url@, now, ttl),
        _ => table,
    }
}

/// A string of `size` characters drawn at random from the URL-safe alphabet.
///
/// Calls `nanoid::format` with `nanoid::rngs::default` as the source of random
/// bytes and `nanoid::alphabet::SAFE` as the alphabet. That alphabet has 64
/// characters, so `format` asks the source for `size` bytes once and appends
/// one character of the alphabet for each: the result has `size` characters,
/// each a letter, a digit, `_` or `-`. Which ones is up to the operating
/// system's random source, and nothing is claimed about that. The call
/// allocates `size` bytes twice, which the standard library refuses beyond
/// `isize::MAX`, and it panics where the operating system has no random bytes
/// to give.
#[verifier::external_body]
fn random_token(size: usize) -> (token: String)
    requires
        size <= isize::MAX,
    ensures
        is_token(token@, size as int),
{
    nanoid::format(nanoid::rngs::default, &nanoid::alphabet::SAFE, size)
}

/// The cache together with the rules for using it in front of the durable store.
pub struct UrlStore {
    cache: TtlCache,
}

impl View for UrlStore {
    type V = Table;

    closed spec fn view(&self) -> Table {
        self.cache@
    }
}

impl UrlStore {
    /// The time to live of the cache, in ticks.
    pub closed spec fn ttl_ticks(&self) -> int {
        self.cache.ttl_ticks()
    }

    /// A lookup service over `cache`.
    pub fn new(cache: TtlCache) -> (store: UrlStore)
        ensures
            store@ == cache@,
            store.ttl_ticks() == cache.ttl_ticks(),
    {
        UrlStore { cache }
    }

    /// The cache.
    pub fn cache(&self) -> (cache: &TtlCache)
        ensures
            cache@ == self@,
            cache.ttl_ticks() == self.ttl_ticks(),
    {
        &self.cache
    }

    /// The cache, for the janitor to sweep.
    pub fn cache_mut(&mut self) -> (cache: &mut TtlCache)
        ensures
            cache@ == old(self)@,
            cache.ttl_ticks() == old(self).ttl_ticks(),
            final(self)@ == final(cache)@,
            final(self).ttl_ticks() == final(cache).ttl_ticks(),
    {
        &mut self.cache
    }

    /// Looks `key` up in the cache at tick `now`. A hit refreshes the entry and
    /// is the answer; on a miss the durable store has to be asked.
    pub fn get(&mut self, key: &str, now: u64) -> (found: Lookup)
        ensures
            match lookup(old(self)@, key@, now as int) {
                Some(url) => found matches Lookup::Hit(hit) && hit@ == url,
                None => found == Lookup::Miss,
            },
            final(self)@ == after_get(old(self)@, key@, now as int, old(self).ttl_ticks()),
            final(self).ttl_ticks() == old(self).ttl_ticks(),
    {
        match self.cache.get(key, now) {
            Some(url) => Lookup::Hit(url),
            None => Lookup::Miss,
        }
    }

    /// Takes the durable store's answer to a lookup of `key` that missed the
    /// cache. A URL is cached at tick `now` and returned; "not found" and a
    /// failure are returned as they are and leave the cache untouched.
    pub fn complete_get(
        &mut self,
        key: String,
        reply: Result<Option<String>, StoreError>,
        now: u64,
    ) -> (answer: Result<Option<String>, StoreError>)
        ensures
            answer == reply,
            final(self)@ == after_reply(old(self)@, key@, reply, now as int, old(self).ttl_ticks()),
            final(self).ttl_ticks() == old(self).ttl_ticks(),
    {
        match reply {
            Ok(Some(url)) => {
                self.cache.insert(key, url.clone(), now);
                Ok(Some(url))
            },
            Ok(None) => Ok(None),
            Err(error) => Err(error),
        }
    }

    /// A fresh short key: `SHORT_KEY_LEN` random URL-safe characters.
    pub fn generate_short_url(&self) -> (key: String)
        ensures
            is_token(key@, SHORT_KEY_LEN as int),
    {
        random_token(SHORT_KEY_LEN)
    }

    /// The record to write to the durable store for `value`: a fresh short key,
    /// the URL, and `created_at` as the time of creation. The cache is not
    /// touched; the first lookup of the new key goes to the store.
    pub fn insert(&self, value: String, created_at: i64) -> (row: ShortUrlRow)
        ensures
            is_token(row.shorturl@, SHORT_KEY_LEN as int),
            row.longurl@ == value@,
            row.created_at == created_at,
    {
        ShortUrlRow { shorturl: self.generate_short_url(), longurl: value, created_at }
    }

    /// Takes the durable store's answer to the write of `row`: the short key
    /// when the record was written, the store's failure when it was not.
    pub fn complete_insert(row: ShortUrlRow, reply: Result<(), StoreError>) -> (answer: Result<String, StoreError>)
        ensures
            match reply {
                Ok(_) => answer == Ok::<String, StoreError>(row.shorturl),
                Err(error) => answer == Err::<String, StoreError>(error),
            },
    {
        match reply {
            Ok(_) => Ok(row.shorturl),
            Err(error) => Err(error),
        }
    }
}

/// The durable store as a mathematical map from short keys to URLs.
pub type Records = Map<Seq<char>, Seq<char>>;

/// What an honest durable store answers when asked for `key`.
pub open spec fn store_answer(records: Records, key: Seq<char>) -> Option<Seq<char>> {
    if records.contains_key(key) {
        Some(records[key])
    } else {
        None
    }
}

/// Whether a reply says what the durable store holds for `key`.
pub open spec fn is_answer_of(reply: Result<Option<String>, StoreError>, records: Records, key: Seq<char>) -> bool {
    match reply {
        Ok(Some(url)) => store_answer(records, key) == Some(url@),
        Ok(None) => store_answer(records, key) is None,
        Err(_) => true,
    }
}

/// The cache holds nothing that the durable store does not hold: every cached
/// key is a key of the store, with the store's URL.
pub open spec fn backed_by(table: Table, records: Records) -> bool {
    forall|key: Seq<char>| #[trigger]
        table.contains_key(key) ==> records.contains_key(key) && records[key] == table[key].value
}

/// A URL that was cached is served from the cache for as long as it is read
/// within the time to live: the lookup is a hit, so the durable store is not
/// asked.
pub proof fn lemma_cached_url_is_served_from_cache(
    table: Table,
    key: Seq<char>,
    url: String,
    cached_at: int,
    read_at: int,
    ttl: int,
)
    requires
        read_at <= cached_at + ttl,
    ensures
        lookup(after_reply(table, key, Ok(Some(url)), cached_at, ttl), key, read_at) == Some(url@),
        lookup(after_insert(table, key, url@, cached_at, ttl), key, read_at) == Some(url@),
{
}

/// "Not found" is not cached: when the cache misses and the durable store
/// holds nothing for the key or fails, the cache holds nothing for the key
/// afterwards, and the next lookup of the key, whenever it comes, misses the
/// cache again and goes to the store.
pub proof fn lemma_not_found_is_not_cached(
    table: Table,
    key: Seq<char>,
    reply: Result<Option<String>, StoreError>,
    asked_at: int,
    answered_at: int,
    again_at: int,
    ttl: int,
)
    requires
        lookup(table, key, asked_at) is None,
        !(reply matches Ok(Some(_))),
    ensures
        !after_reply(after_get(table, key, asked_at, ttl), key, reply, answered_at, ttl).contains_key(key),
        lookup(after_reply(after_get(table, key, asked_at, ttl), key, reply, answered_at, ttl), key, again_at)
            is None,
{
}

/// A lookup that misses and is not answered with a URL changes nothing in the
/// cache but the removal of the key's expired entry, if it had one.
pub proof fn lemma_failed_lookup_leaves_cache_alone(
    table: Table,
    key: Seq<char>,
    reply: Result<Option<String>, StoreError>,
    now: int,
    ttl: int,
)
    requires
        !(reply matches Ok(Some(_))),
    ensures
        after_reply(table, key, reply, now, ttl) == table,
{
}

/// The cache never gets ahead of the durable store. If it holds nothing that
/// the store does not hold, then this is still so after a read, after a sweep,
/// after an honest answer of the store has been taken, and after the store
/// has gained a record under a new key.
pub proof fn lemma_cache_stays_backed_by_store(
    table: Table,
    records: Records,
    key: Seq<char>,
    reply: Result<Option<String>, StoreError>,
    new_key: Seq<char>,
    new_url: Seq<char>,
    now: int,
    ttl: int,
)
    requires
        backed_by(table, records),
    ensures
        backed_by(after_get(table, key, now, ttl), records),
        backed_by(after_sweep(table, now), records),
        is_answer_of(reply, records, key) ==> backed_by(after_reply(table, key, reply, now, ttl), records),
        !records.contains_key(new_key) ==> backed_by(table, records.insert(new_key, new_url)),
        backed_by(Table::empty(), records),
{
    let read = after_get(table, key, now, ttl);
    assert forall|other: Seq<char>| #[trigger] read.contains_key(other) implies records.contains_key(other)
        && records[other] == read[other].value by {
        assert(table.contains_key(other));
    }
    let swept = after_sweep(table, now);
    assert forall|other: Seq<char>| #[trigger] swept.contains_key(other) implies records.contains_key(other)
        && records[other] == swept[other].value by {
        assert(table.contains_key(other));
    }
    if is_answer_of(reply, records, key) {
        let answered = after_reply(table, key, reply, now, ttl);
        assert forall|other: Seq<char>| #[trigger] answered.contains_key(other) implies records.contains_key(
            other,
        ) && records[other] == answered[other].value by {
            if other != key {
                assert(table.contains_key(other));
            } else if !(reply matches Ok(Some(_))) {
                assert(table.contains_key(other));
            }
        }
    }
    if !records.contains_key(new_key) {
        let grown = records.insert(new_key, new_url);
        assert forall|other: Seq<char>| #[trigger] table.contains_key(other) implies grown.contains_key(other)
            && grown[other] == table[other].value by {
            assert(records.contains_key(other));
        }
    }
}

/// What the cache serves is what the durable store holds: a hit on a cache
/// that holds nothing the store does not hold returns the store's URL for
/// the key.
pub proof fn lemma_hit_returns_stored_url(table: Table, records: Records, key: Seq<char>, now: int)
    requires
        backed_by(table, records),
        lookup(table, key, now) is Some,
    ensures
        lookup(table, key, now) == store_answer(records, key),
{
    assert(table.contains_key(key));
}

} // verus!

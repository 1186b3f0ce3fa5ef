//! The expiring cache: string keys, string values, one sliding deadline per entry.
//!
//! Time is whatever clock the caller reads, counted in ticks. Every operation
//! that depends on the time takes the current tick as an argument, so the cache
//! itself never looks at a clock.

use crate::janitor::{Janitor, JanitorState};
use vstd::hash_map::StringHashMap;
use vstd::prelude::*;

verus! {

/// What the cache holds for one key: the value, and the last tick at which a
/// read still serves it.
pub struct Entry {
    pub value: Seq<char>,
    pub expiry: int,
}

/// The cache as a mathematical map from keys to entries.
pub type Table = Map<Seq<char>, Entry>;

/// A key is served at `now` when the table holds it and its deadline has not passed.
pub open spec fn is_live(table: Table, key: Seq<char>, now: int) -> bool {
    table.contains_key(key) && now <= table[key].expiry
}

/// The table after `value` is stored under `key` at `now`: the entry replaces
/// whatever the key had, and lives for `ttl` ticks from `now`.
pub open spec fn after_insert(table: Table, key: Seq<char>, value: Seq<char>, now: int, ttl: int) -> Table {
    table.insert(key, Entry { value, expiry: now + ttl })
}

/// What a read of `key` at `now` returns.
pub open spec fn lookup(table: Table, key: Seq<char>, now: int) -> Option<Seq<char>> {
    if is_live(table, key, now) {
        Some(table[key].value)
    } else {
        None
    }
}

/// The table after a read of `key` at `now`: a live entry gets a fresh
/// deadline, an expired one leaves, and nothing else changes.
pub open spec fn after_get(table: Table, key: Seq<char>, now: int, ttl: int) -> Table {
    if is_live(table, key, now) {
        table.insert(key, Entry { value: table[key].value, expiry: now + ttl })
    } else {
        table.remove(key)
    }
}

/// The table after a sweep at `now`: exactly the entries whose deadline lies
/// after `now`, each unchanged.
pub open spec fn after_sweep(table: Table, now: int) -> Table {
    Map::new(|key: Seq<char>| table.contains_key(key) && table[key].expiry > now, |key: Seq<char>| table[key])
}

/// One stored entry.
struct CacheEntry {
    value: String,
    expiry: i128,
}

impl View for CacheEntry {
    type V = Entry;

    closed spec fn view(&self) -> Entry {
        Entry { value: self.value@, expiry: self.expiry as int }
    }
}

/// Whether `key` occurs in `keys`.
spec fn listed(keys: Seq<String>, key: Seq<char>) -> bool {
    exists|i: int| 0 <= i < keys.len() && #[trigger] keys[i]@ == key
}

/// A key is listed after a push when it was listed before or is the one pushed.
proof fn lemma_listed_push(keys: Seq<String>, last: String)
    ensures
        forall|key: Seq<char>| #[trigger]
            listed(keys.push(last), key) <==> listed(keys, key) || last@ == key,
{
    let longer = keys.push(last);
    assert forall|key: Seq<char>| #[trigger] listed(longer, key) <==> listed(keys, key) || last@ == key by {
        if listed(keys, key) {
            let i = choose|i: int| 0 <= i < keys.len() && #[trigger] keys[i]@ == key;
            assert(longer[i]@ == key);
        }
        if last@ == key {
            assert(longer[keys.len() as int]@ == key);
        }
        if listed(longer, key) {
            let i = choose|i: int| 0 <= i < longer.len() && #[trigger] longer[i]@ == key;
            if i < keys.len() {
                assert(keys[i]@ == key);
            }
        }
    }
}

/// A key is listed when it is the last one or is listed among the others.
proof fn lemma_listed_drop_last(keys: Seq<String>)
    requires
        keys.len() > 0,
    ensures
        forall|key: Seq<char>| #[trigger]
            listed(keys, key) <==> listed(keys.subrange(0, keys.len() - 1), key) || keys[keys.len() - 1]@ == key,
{
    let shorter = keys.subrange(0, keys.len() - 1);
    assert(keys =~= shorter.push(keys[keys.len() - 1]));
    lemma_listed_push(shorter, keys[keys.len() - 1]);
}

/// A cache of string values under string keys, each entry with a deadline that
/// every successful read pushes back by the time to live.
///
/// Reads and writes are hash-map operations. Only the sweep walks all entries.
/// A read changes the cache, so every operation but `len` takes the cache
/// exclusively; callers that share a cache put it behind one lock.
pub struct TtlCache {
    /// The entries, by key.
    entries: StringHashMap<CacheEntry>,
    /// Every key of `entries`, and possibly keys that have left it since the
    /// last sweep. The hash map cannot be walked, so the sweep walks this.
    keys: Vec<String>,
    /// How long an entry lives after it was stored or read, in ticks.
    ttl: i64,
}

impl View for TtlCache {
    type V = Table;

    closed spec fn view(&self) -> Table {
        Map::new(
            |key: Seq<char>| self.entries@.contains_key(key),
            |key: Seq<char>| self.entries@[key]@,
        )
    }
}

impl TtlCache {
    #[verifier::type_invariant]
    spec fn well_formed(self) -> bool {
        &&& self.entries@.dom().finite()
        &&& forall|key: Seq<char>| #[trigger] self.entries@.contains_key(key) ==> listed(self.keys@, key)
    }

    /// The time to live, in ticks.
    pub closed spec fn ttl_ticks(&self) -> int {
        self.ttl as int
    }

    /// An empty cache whose entries live for `ttl` ticks, and the janitor that
    /// is to sweep it every `cleanup_interval` ticks. The janitor is running.
    pub fn new(ttl: i64, cleanup_interval: u64) -> (made: (TtlCache, Janitor))
        ensures
            made.0@ == Table::empty(),
            made.0.ttl_ticks() == ttl,
            made.1@ == JanitorState::Running,
            made.1.period() == cleanup_interval,
    {
        let cache = TtlCache { entries: StringHashMap::new(), keys: Vec::new(), ttl };
        assert(cache@ =~= Table::empty());
        let mut janitor = Janitor::new(cleanup_interval);
        janitor.start();
        (cache, janitor)
    }

    /// The time to live, in ticks.
    pub fn ttl(&self) -> (ttl: i64)
        ensures
            ttl == self.ttl_ticks(),
    {
        self.ttl
    }

    /// Moves the entries and the key list out and leaves the cache empty.
    ///
    /// Every operation works on the two parts as values of its own and puts
    /// them back when it is done, so that the cache is well formed at every
    /// point at which a call could unwind.
    fn take_apart(&mut self) -> (parts: (StringHashMap<CacheEntry>, Vec<String>))
        ensures
            parts.0 == old(self).entries,
            parts.1 == old(self).keys,
            parts.0@.dom().finite(),
            forall|key: Seq<char>| #[trigger] parts.0@.contains_key(key) ==> listed(parts.1@, key),
            final(self).entries@ == Map::<Seq<char>, CacheEntry>::empty(),
            final(self).ttl == old(self).ttl,
    {
        proof {
            use_type_invariant(&*self);
        }
        let mut entries: StringHashMap<CacheEntry> = StringHashMap::new();
        let mut keys: Vec<String> = Vec::new();
        std::mem::swap(&mut self.entries, &mut entries);
        std::mem::swap(&mut self.keys, &mut keys);
        (entries, keys)
    }

    /// Moves entries and a key list that names each of their keys into an
    /// empty cache.
    fn put_together(&mut self, entries: StringHashMap<CacheEntry>, keys: Vec<String>)
        requires
            old(self).entries@ == Map::<Seq<char>, CacheEntry>::empty(),
            entries@.dom().finite(),
            forall|key: Seq<char>| #[trigger] entries@.contains_key(key) ==> listed(keys@, key),
        ensures
            final(self).entries == entries,
            final(self).keys == keys,
            final(self).ttl == old(self).ttl,
    {
        let mut entries = entries;
        let mut keys = keys;
        std::mem::swap(&mut self.keys, &mut keys);
        std::mem::swap(&mut self.entries, &mut entries);
    }

    /// Stores `value` under `key` at tick `now`, in place of whatever the key had.
    pub fn insert(&mut self, key: String, value: String, now: u64)
        ensures
            final(self)@ == after_insert(old(self)@, key@, value@, now as int, old(self).ttl_ticks()),
            final(self).ttl_ticks() == old(self).ttl_ticks(),
    {
        let expiry: i128 = now as i128 + self.ttl as i128;
        let entry = CacheEntry { value, expiry };
        let (mut entries, mut keys) = self.take_apart();
        if !entries.contains_key(key.as_str()) {
            keys.push(key.clone());
            assert(keys@[keys@.len() - 1]@ == key@);
            assert forall|other: Seq<char>| listed(old(self).keys@, other) implies listed(keys@, other) by {
                let i = choose|i: int| 0 <= i < old(self).keys@.len() && #[trigger] old(self).keys@[i]@ == other;
                assert(keys@[i]@ == other);
            }
        }
        entries.insert(key, entry);
        self.put_together(entries, keys);
        assert(self@ =~= after_insert(old(self)@, key@, value@, now as int, old(self).ttl_ticks()));
    }

    /// Reads `key` at tick `now`. A live entry is returned and lives for
    /// another full time to live from `now`; an expired one is removed.
    pub fn get(&mut self, key: &str, now: u64) -> (found: Option<String>)
        ensures
            found is Some == is_live(old(self)@, key@, now as int),
            found matches Some(value) ==> lookup(old(self)@, key@, now as int) == Some(value@),
            final(self)@ == after_get(old(self)@, key@, now as int, old(self).ttl_ticks()),
            final(self).ttl_ticks() == old(self).ttl_ticks(),
    {
        let fresh: i128 = now as i128 + self.ttl as i128;
        let (mut entries, keys) = self.take_apart();
        let mut expired = false;
        let found = match entries.get(key) {
            Some(entry) => {
                if now as i128 <= entry.expiry {
                    Some(entry.value.clone())
                } else {
                    expired = true;
                    None
                }
            },
            None => None,
        };
        if let Some(value) = &found {
            entries.insert(key.to_owned(), CacheEntry { value: value.clone(), expiry: fresh });
        } else if expired {
            entries.remove(key);
        }
        self.put_together(entries, keys);
        assert(self@ =~= after_get(old(self)@, key@, now as int, old(self).ttl_ticks()));
        found
    }

    /// Removes every entry whose deadline is not after `now`, and returns how
    /// many entries stay.
    pub fn sweep(&mut self, now: u64) -> (remaining: usize)
        ensures
            final(self)@ == after_sweep(old(self)@, now as int),
            remaining == final(self)@.len(),
            final(self).ttl_ticks() == old(self).ttl_ticks(),
    {
        let (mut entries, mut pending) = self.take_apart();
        let ghost before = entries@;
        let mut kept: Vec<String> = Vec::new();
        let mut seen: StringHashMap<bool> = StringHashMap::new();
        while pending.len() > 0
            invariant
                entries@.dom().finite(),
                forall|key: Seq<char>| #[trigger]
                    entries@.contains_key(key) ==> before.contains_key(key) && entries@[key] == before[key],
                forall|key: Seq<char>| #[trigger]
                    before.contains_key(key) && !entries@.contains_key(key) ==> before[key].expiry <= now,
                forall|key: Seq<char>| #[trigger]
                    entries@.contains_key(key) ==> listed(pending@, key) || listed(kept@, key),
                forall|key: Seq<char>| #[trigger]
                    listed(kept@, key) ==> entries@.contains_key(key) && entries@[key].expiry > now,
                forall|key: Seq<char>| #[trigger] seen@.contains_key(key) <==> listed(kept@, key),
            decreases pending.len(),
        {
            let ghost pending_before = pending@;
            let ghost kept_before = kept@;
            let key = pending.pop().unwrap();
            proof {
                lemma_listed_drop_last(pending_before);
            }
            let mut live = false;
            let mut expired = false;
            match entries.get(key.as_str()) {
                Some(entry) => {
                    if entry.expiry > now as i128 {
                        live = true;
                    } else {
                        expired = true;
                    }
                },
                None => {},
            }
            if expired {
                entries.remove(key.as_str());
            } else if live && !seen.contains_key(key.as_str()) {
                seen.insert(key.clone(), true);
                kept.push(key);
                proof {
                    lemma_listed_push(kept_before, key);
                }
            }
        }
        let remaining = entries.len();
        self.put_together(entries, kept);
        assert(self@ =~= after_sweep(old(self)@, now as int));
        assert(self@.dom() =~= self.entries@.dom());
        remaining
    }

    /// The number of entries held, expired ones that no read or sweep has
    /// removed yet included.
    pub fn len(&self) -> (n: usize)
        ensures
            n == self@.len(),
    {
        assert(self@.dom() =~= self.entries@.dom());
        self.entries.len()
    }

    /// Whether the cache holds no entry at all.
    pub fn is_empty(&self) -> (empty: bool)
        ensures
            empty == (self@.len() == 0),
    {
        self.len() == 0
    }
}

/// The table after `key` is read at each of `times` in turn.
pub open spec fn after_reads(table: Table, key: Seq<char>, times: Seq<int>, ttl: int) -> Table
    decreases times.len(),
{
    if times.len() == 0 {
        table
    } else {
        after_get(after_reads(table, key, times.drop_last(), ttl), key, times.last(), ttl)
    }
}

/// Reads that follow one another closely enough: the first comes no later than
/// `ttl` ticks after `start`, and each next one no later than `ttl` ticks
/// after the one before it.
pub open spec fn paced(start: int, times: Seq<int>, ttl: int) -> bool {
    forall|i: int| 0 <= i < times.len() ==> #[trigger] times[i] <= (if i == 0 { start } else { times[i - 1] }) + ttl
}

/// A value that is read no later than `ttl` ticks after it was stored is
/// returned, and the read gives the entry a full time to live again, counted
/// from the read.
pub proof fn lemma_read_within_ttl_hits(
    table: Table,
    key: Seq<char>,
    value: Seq<char>,
    stored_at: int,
    read_at: int,
    ttl: int,
)
    requires
        read_at <= stored_at + ttl,
    ensures
        lookup(after_insert(table, key, value, stored_at, ttl), key, read_at) == Some(value),
        after_get(after_insert(table, key, value, stored_at, ttl), key, read_at, ttl) == after_insert(
            table,
            key,
            value,
            read_at,
            ttl,
        ),
{
    let stored = after_insert(table, key, value, stored_at, ttl);
    assert(after_get(stored, key, read_at, ttl) =~= after_insert(table, key, value, read_at, ttl));
}

/// The sliding window: as long as the reads of a key are paced, every one of
/// them returns the stored value, however many there are, and after the last
/// the entry is as if the value had just been stored at that read.
pub proof fn lemma_paced_reads_keep_alive(
    table: Table,
    key: Seq<char>,
    value: Seq<char>,
    stored_at: int,
    times: Seq<int>,
    ttl: int,
)
    requires
        paced(stored_at, times, ttl),
    ensures
        forall|i: int|
            0 <= i < times.len() ==> lookup(
                after_reads(after_insert(table, key, value, stored_at, ttl), key, times.take(i), ttl),
                key,
                #[trigger] times[i],
            ) == Some(value),
        after_reads(after_insert(table, key, value, stored_at, ttl), key, times, ttl) == after_insert(
            table,
            key,
            value,
            if times.len() == 0 { stored_at } else { times.last() },
            ttl,
        ),
    decreases times.len(),
{
    let stored = after_insert(table, key, value, stored_at, ttl);
    if times.len() > 0 {
        let earlier = times.drop_last();
        assert(paced(stored_at, earlier, ttl)) by {
            assert forall|i: int| 0 <= i < earlier.len() implies #[trigger] earlier[i] <= (if i == 0 {
                stored_at
            } else {
                earlier[i - 1]
            }) + ttl by {
                assert(times[i] <= (if i == 0 { stored_at } else { times[i - 1] }) + ttl);
            }
        }
        lemma_paced_reads_keep_alive(table, key, value, stored_at, earlier, ttl);
        let last = times.len() - 1;
        let before_last = if earlier.len() == 0 { stored_at } else { earlier.last() };
        assert(times[last] <= (if last == 0 { stored_at } else { times[last - 1] }) + ttl);
        lemma_read_within_ttl_hits(table, key, value, before_last, times[last], ttl);
        assert forall|i: int| 0 <= i < times.len() implies lookup(
            after_reads(stored, key, times.take(i), ttl),
            key,
            #[trigger] times[i],
        ) == Some(value) by {
            if i < last {
                assert(times.take(i) =~= earlier.take(i));
                assert(earlier[i] == times[i]);
            } else {
                assert(times.take(i) =~= earlier);
            }
        }
    }
}

/// A value that has not been read for longer than `ttl` ticks since it was
/// stored is not returned any more: the read that comes too late finds
/// nothing and removes the entry, and so does a sweep at that tick.
pub proof fn lemma_unread_past_ttl_is_gone(
    table: Table,
    key: Seq<char>,
    value: Seq<char>,
    stored_at: int,
    now: int,
    ttl: int,
)
    requires
        now > stored_at + ttl,
    ensures
        lookup(after_insert(table, key, value, stored_at, ttl), key, now) is None,
        !after_get(after_insert(table, key, value, stored_at, ttl), key, now, ttl).contains_key(key),
        !after_sweep(after_insert(table, key, value, stored_at, ttl), now).contains_key(key),
{
}

/// A sweep leaves no entry behind whose deadline has come, changes no entry
/// that stays, and never makes the table larger; it makes the table smaller
/// whenever there was such an entry.
pub proof fn lemma_sweep_shrinks(table: Table, now: int)
    requires
        table.dom().finite(),
    ensures
        forall|key: Seq<char>| #[trigger]
            after_sweep(table, now).contains_key(key) ==> after_sweep(table, now)[key].expiry > now,
        after_sweep(table, now).submap_of(table),
        after_sweep(table, now).dom().finite(),
        after_sweep(table, now).len() <= table.len(),
        (exists|key: Seq<char>| #[trigger] table.contains_key(key) && table[key].expiry <= now) ==> after_sweep(
            table,
            now,
        ).len() < table.len(),
{
    let swept = after_sweep(table, now);
    assert(swept.dom().subset_of(table.dom()));
    vstd::set_lib::lemma_len_subset(swept.dom(), table.dom());
    if exists|key: Seq<char>| #[trigger] table.contains_key(key) && table[key].expiry <= now {
        let gone = choose|key: Seq<char>| #[trigger] table.contains_key(key) && table[key].expiry <= now;
        assert(swept.dom().subset_of(table.dom().remove(gone)));
        vstd::set_lib::lemma_len_subset(swept.dom(), table.dom().remove(gone));
    }
}

/// A sweep serves no purpose twice: sweeping again at the same tick, or at an
/// earlier one, changes nothing.
pub proof fn lemma_sweep_is_idempotent(table: Table, now: int, earlier: int)
    requires
        earlier <= now,
    ensures
        after_sweep(after_sweep(table, now), now) == after_sweep(table, now),
        after_sweep(after_sweep(table, now), earlier) == after_sweep(table, now),
{
    assert(after_sweep(after_sweep(table, now), now) =~= after_sweep(table, now));
    assert(after_sweep(after_sweep(table, now), earlier) =~= after_sweep(table, now));
}

/// A sweep takes nothing away that a read at the same tick or later would
/// have returned, unless the entry's deadline is that very tick.
pub proof fn lemma_sweep_keeps_what_is_served(table: Table, key: Seq<char>, swept_at: int, read_at: int)
    requires
        swept_at <= read_at,
        is_live(table, key, read_at),
        table[key].expiry != swept_at,
    ensures
        lookup(after_sweep(table, swept_at), key, read_at) == lookup(table, key, read_at),
{
}

} // verus!

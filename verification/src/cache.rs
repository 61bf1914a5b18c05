//! The cache store: entries, their expiry, and the point operations on them.

use vstd::prelude::*;
use crate::names::NameMap;
use crate::text::name_list;
use crate::text::order::{in_order, sorted_names};

pub mod generators;
pub mod laws;
pub mod sync;

verus! {

/// Where a cache entry came from.
#[derive(Debug, Clone, Copy, PartialEq, Eq, Structural)]
pub enum UpdateType {
    /// An evaluation of one gatekeeper, asked for by name.
    Evaluate,
    /// A re-evaluation during a sync of all gatekeepers.
    Sync,
    /// A value set by hand.
    Manual,
}

#[derive(Debug, Clone, Copy, PartialEq, Eq, Structural)]
pub struct CacheEntry {
    pub value: bool,
    /// Unix seconds at which the entry was written.
    pub ts: u64,
    pub update_type: UpdateType,
    /// Unix seconds from which on the entry is stale; `None`: never.
    pub expires_at: Option<u64>,
}

/// The whole store: the entries by name, and when it was last written.
pub struct Cache {
    pub cache: NameMap<CacheEntry>,
    pub ts: u64,
}

/// What a look at a gatekeeper's source file gave.
#[derive(Debug, Clone, Copy, PartialEq, Eq, Structural)]
pub enum SourceState {
    /// There is no such file.
    Missing,
    /// The file is there, but its modification time cannot be read.
    Unreadable,
    /// The file is there and was last modified at this time, in unix seconds.
    ModifiedAt(u64),
}

/// The expiry instant of an entry written at `now` with the time to live `ttl`.
pub open spec fn expiry(now: u64, ttl: Option<u64>) -> Option<int> {
    match ttl {
        Some(t) => Some(now + t),
        None => None,
    }
}

/// Whether an entry written at `now` with `ttl` has an expiry that fits.
pub open spec fn ttl_fits(now: u64, ttl: Option<u64>) -> bool {
    ttl matches Some(t) ==> now + t <= u64::MAX
}

/// The entry that a write at `now` leaves.
pub open spec fn written_entry(
    value: bool,
    update_type: UpdateType,
    ttl: Option<u64>,
    now: u64,
) -> CacheEntry {
    CacheEntry {
        value,
        ts: now,
        update_type,
        expires_at: match ttl {
            Some(t) => Some((now + t) as u64),
            None => None,
        },
    }
}

/// An entry is expired from its expiry instant on; one without never is.
pub open spec fn expired(entry: CacheEntry, now: u64) -> bool {
    entry.expires_at matches Some(t) && now >= t
}

/// Whether the source file counts as changed since an entry written at `ts`:
/// it was modified later, or nothing certain is known of it.
pub open spec fn source_modified(state: SourceState, ts: u64) -> bool {
    match state {
        SourceState::Missing => true,
        SourceState::Unreadable => true,
        SourceState::ModifiedAt(m) => m > ts,
    }
}

/// Whether a source file that is there may be newer than an entry written at
/// `ts`. A missing file is not: the entry is then all there is.
pub open spec fn source_newer(state: SourceState, ts: u64) -> bool {
    match state {
        SourceState::Missing => false,
        SourceState::Unreadable => true,
        SourceState::ModifiedAt(m) => m > ts,
    }
}

/// The value that a lookup of `name` may answer from the cache: that of an
/// entry which is there, has not expired and is not older than its source.
pub open spec fn cached_value(
    entries: Map<Seq<char>, CacheEntry>,
    name: Seq<char>,
    source: SourceState,
    now: u64,
) -> Option<bool> {
    if entries.contains_key(name) && !expired(entries[name], now) && !source_newer(
        source,
        entries[name].ts,
    ) {
        Some(entries[name].value)
    } else {
        None
    }
}

impl CacheEntry {
    /// The entry for `value`, written at `now`, that expires `ttl` seconds
    /// later.
    pub fn written(value: bool, update_type: UpdateType, ttl: Option<u64>, now: u64) -> (entry:
        CacheEntry)
        requires
            ttl_fits(now, ttl),
        ensures
            entry == written_entry(value, update_type, ttl, now),
            entry.ts == now,
            match ttl {
                Some(t) => entry.expires_at == Some((now + t) as u64) && entry.expires_at->0 == now + t,
                None => entry.expires_at is None,
            },
    {
        let expires_at = match ttl {
            Some(t) => Some(now + t),
            None => None,
        };
        CacheEntry { value, ts: now, update_type, expires_at }
    }
}

pub fn is_cache_entry_expired(entry: &CacheEntry, current_timestamp: u64) -> (stale: bool)
    ensures
        stale == expired(*entry, current_timestamp),
{
    match entry.expires_at {
        Some(expires_at) => current_timestamp >= expires_at,
        None => false,
    }
}

/// Whether the gatekeeper's source, in the state `source`, is to be taken as
/// changed since `cache_entry` was written.
pub fn is_gatekeeper_file_modified(source: SourceState, cache_entry: &CacheEntry) -> (modified:
    bool)
    ensures
        modified == source_modified(source, cache_entry.ts),
{
    match source {
        SourceState::Missing => true,
        SourceState::Unreadable => true,
        SourceState::ModifiedAt(file_timestamp) => file_timestamp > cache_entry.ts,
    }
}

impl Cache {
    pub open spec fn wf(&self) -> bool {
        self.cache.wf()
    }

    /// An empty store, last written at `ts`.
    pub fn new(ts: u64) -> (cache: Cache)
        ensures
            cache.wf(),
            cache.cache@ == Map::<Seq<char>, CacheEntry>::empty(),
            cache.ts == ts,
    {
        Cache { cache: NameMap::new(), ts }
    }
}

/// Writes the result of an evaluation, or a value set by hand, into the
/// cache at time `now`. The entry replaces the one of that name as a whole;
/// the others stay.
pub fn cache_result_with_ttl(
    cache: &mut Cache,
    name: &str,
    result: bool,
    update_type: UpdateType,
    ttl_seconds: Option<u64>,
    now: u64,
)
    requires
        old(cache).wf(),
        ttl_fits(now, ttl_seconds),
    ensures
        final(cache).wf(),
        final(cache).cache@ == old(cache).cache@.insert(
            name@,
            written_entry(result, update_type, ttl_seconds, now),
        ),
        final(cache).ts == now,
{
    let entry = CacheEntry::written(result, update_type, ttl_seconds, now);
    cache.cache.insert(name.to_string(), entry);
    cache.ts = now;
}

/// Sets `name` to `value` by hand, whatever was cached under it.
pub fn set_command(cache: &mut Cache, name: &str, value: bool, ttl_seconds: Option<u64>, now: u64)
    requires
        old(cache).wf(),
        ttl_fits(now, ttl_seconds),
    ensures
        final(cache).wf(),
        final(cache).cache@ == old(cache).cache@.insert(
            name@,
            written_entry(value, UpdateType::Manual, ttl_seconds, now),
        ),
        final(cache).ts == now,
{
    cache_result_with_ttl(cache, name, value, UpdateType::Manual, ttl_seconds, now);
}

/// Looks `name` up at time `now`, given the state of its source file.
/// `Some` is the cached value; `None` says that the gatekeeper has to be
/// evaluated afresh and the result written back.
pub fn get_command(cache: &Cache, name: &str, source: SourceState, now: u64) -> (answer: Option<
    bool,
>)
    requires
        cache.wf(),
    ensures
        answer == cached_value(cache.cache@, name@, source, now),
{
    match cache.cache.get(name) {
        Some(entry) => {
            let newer = match source {
                SourceState::Missing => false,
                SourceState::Unreadable => true,
                SourceState::ModifiedAt(m) => m > entry.ts,
            };
            if is_cache_entry_expired(entry, now) || newer {
                None
            } else {
                Some(entry.value)
            }
        },
        None => None,
    }
}

/// The cached values by name, the names in order.
pub fn get_all_gatekeepers(cache: &Cache) -> (listing: Vec<(String, bool)>)
    requires
        cache.wf(),
    ensures
        listing@.len() == in_order(cache.cache@.dom()).len(),
        forall|i: int|
            0 <= i < listing@.len() ==> (#[trigger] listing@[i]).0@ == in_order(
                cache.cache@.dom(),
            )[i] && cache.cache@.contains_key(listing@[i].0@) && listing@[i].1
                == cache.cache@[listing@[i].0@].value,
{
    let names = sorted_names(&cache.cache.names());
    proof {
        cache.cache.lemma_keys_are_domain();
    }
    let ghost order = name_list(names@);
    let mut listing: Vec<(String, bool)> = Vec::new();
    let mut i: usize = 0;
    while i < names.len()
        invariant
            cache.wf(),
            i <= names@.len(),
            order == name_list(names@),
            order == in_order(cache.cache@.dom()),
            forall|k: Seq<char>| #[trigger] order.contains(k) ==> cache.cache@.contains_key(k),
            listing@.len() == i,
            forall|j: int|
                0 <= j < i ==> (#[trigger] listing@[j]).0@ == order[j] && cache.cache@.contains_key(
                    listing@[j].0@,
                ) && listing@[j].1 == cache.cache@[listing@[j].0@].value,
        decreases names@.len() - i,
    {
        assert(order.contains(order[i as int]));
        let value = match cache.cache.get(names[i].as_str()) {
            Some(entry) => entry.value,
            None => false,
        };
        listing.push((names[i].clone(), value));
        i += 1;
    }
    listing
}

/// Takes `name` out of the cache at time `now`. The answer says whether
/// there was such an entry; only then does the store count as written.
pub fn rm_command(cache: &mut Cache, name: &str, now: u64) -> (existed: bool)
    requires
        old(cache).wf(),
    ensures
        final(cache).wf(),
        existed == old(cache).cache@.contains_key(name@),
        final(cache).cache@ == old(cache).cache@.remove(name@),
        final(cache).ts == if existed {
            now
        } else {
            old(cache).ts
        },
{
    let taken = cache.cache.remove(name);
    if taken.is_some() {
        cache.ts = now;
        true
    } else {
        false
    }
}

} // verus!

//! What holds of the cache whatever its contents.

use vstd::prelude::*;
use crate::cache::sync::{SyncView, Tally};
use crate::lua_executor::LuaGatekeeperResult;
use crate::cache::{
    cached_value, expired, expiry, source_modified, source_newer, ttl_fits, written_entry, CacheEntry, SourceState,
    UpdateType,
};

verus! {

/// Right after a write at `now`, the entry's timestamp is `now`; its expiry
/// is `now + ttl` where a time to live was given, and absent where none was.
pub proof fn lemma_written_entry_expiry(
    value: bool,
    update_type: UpdateType,
    ttl: Option<u64>,
    now: u64,
)
    requires
        ttl_fits(now, ttl),
    ensures
        written_entry(value, update_type, ttl, now).ts == now,
        written_entry(value, update_type, ttl, now).value == value,
        written_entry(value, update_type, ttl, now).update_type == update_type,
        match (written_entry(value, update_type, ttl, now).expires_at, expiry(now, ttl)) {
            (Some(stored), Some(due)) => stored == due,
            (None, None) => true,
            _ => false,
        },
        ttl is None ==> written_entry(value, update_type, ttl, now).expires_at is None,
        ttl matches Some(t) ==> written_entry(value, update_type, ttl, now).expires_at matches Some(
            e,
        ) && e == now + t,
{
}

/// A lookup at or after the expiry of an entry is not answered from the
/// cache; one before it is, unless the source may be newer than the entry.
pub proof fn lemma_lookup_respects_expiry(
    entries: Map<Seq<char>, CacheEntry>,
    name: Seq<char>,
    source: SourceState,
    now: u64,
)
    requires
        entries.contains_key(name),
    ensures
        entries[name].expires_at matches Some(t) && now >= t ==> cached_value(
            entries,
            name,
            source,
            now,
        ) is None,
        (entries[name].expires_at matches Some(t) ==> now < t) && !source_newer(
            source,
            entries[name].ts,
        ) ==> cached_value(entries, name, source, now) == Some(entries[name].value),
{
}

/// An entry written with a time to live is answered from the cache at every
/// instant before `now + ttl` and at none from then on, as long as its
/// source is not newer.
pub proof fn lemma_written_entry_lifetime(
    entries: Map<Seq<char>, CacheEntry>,
    name: Seq<char>,
    value: bool,
    update_type: UpdateType,
    ttl: u64,
    now: u64,
    later: u64,
    source: SourceState,
)
    requires
        now + ttl <= u64::MAX,
        !source_newer(source, now),
    ensures
        ({
            let after = entries.insert(name, written_entry(value, update_type, Some(ttl), now));
            if later < now + ttl {
                cached_value(after, name, source, later) == Some(value)
            } else {
                cached_value(after, name, source, later) is None
            }
        }),
{
}

/// An entry set by hand whose name is no gatekeeper comes through every
/// sync unchanged: forced or not, expired or not, with or without a source
/// file of that name.
pub proof fn lemma_manual_entry_survives_sync(v: SyncView, name: Seq<char>)
    requires
        v.existing.contains_key(name),
        v.existing[name].update_type == UpdateType::Manual,
        !v.is_gatekeeper(name),
    ensures
        v.result().contains_key(name),
        v.result()[name] == v.existing[name],
        !v.counts(Tally::Removed, name),
{
}

/// The same, from the write on: after `name` has been set by hand, a sync
/// for which `name` is no gatekeeper leaves exactly the entry that the
/// write made.
pub proof fn lemma_set_then_sync(
    v: SyncView,
    before: Map<Seq<char>, CacheEntry>,
    name: Seq<char>,
    value: bool,
    ttl: Option<u64>,
    set_at: u64,
)
    requires
        v.existing == before.insert(name, written_entry(value, UpdateType::Manual, ttl, set_at)),
        !v.is_gatekeeper(name),
    ensures
        v.result().contains_key(name),
        v.result()[name] == written_entry(value, UpdateType::Manual, ttl, set_at),
{
    lemma_manual_entry_survives_sync(v, name);
}

/// A gatekeeper whose source was modified strictly after its entry was
/// written is evaluated afresh by the next sync and is not answered from the
/// cache by the next lookup, though the entry has not expired.
pub proof fn lemma_touched_source_is_reevaluated(v: SyncView, name: Seq<char>, modified: u64)
    requires
        v.is_gatekeeper(name),
        v.existing.contains_key(name),
        !expired(v.existing[name], v.now),
        v.state(name) == SourceState::ModifiedAt(modified),
        modified > v.existing[name].ts,
    ensures
        v.needs_evaluation(name),
        v.is_due(name),
        cached_value(v.existing, name, v.state(name), v.now) is None,
        v.outcomes.contains_key(name) ==> v.result()[name] == written_entry(
            v.outcomes[name].value,
            UpdateType::Sync,
            v.outcomes[name].ttl,
            v.now,
        ),
{
}

/// A sync that is not forced leaves alone every gatekeeper whose entry has
/// not expired and whose source is not newer than the entry: it is skipped
/// as fresh, its entry is the old one, and it is not among those evaluated.
pub proof fn lemma_fresh_gatekeeper_is_skipped(v: SyncView, name: Seq<char>, modified: u64)
    requires
        !v.force,
        v.is_gatekeeper(name),
        v.existing.contains_key(name),
        !expired(v.existing[name], v.now),
        v.state(name) == SourceState::ModifiedAt(modified),
        modified <= v.existing[name].ts,
    ensures
        !v.is_due(name),
        v.counts(Tally::Skipped, name),
        !v.counts(Tally::Updated, name),
        v.result().contains_key(name),
        v.result()[name] == v.existing[name],
{
}

/// The inputs of a sync that is not forced and that finds, at the time
/// `later`, the cache that the sync `first` left and the sources as they
/// were.
pub open spec fn following(
    first: SyncView,
    later: u64,
    outcomes: Map<Seq<char>, LuaGatekeeperResult>,
) -> SyncView {
    SyncView {
        existing: first.result(),
        sources: first.sources,
        outcomes,
        force: false,
        now: later,
    }
}

/// Whether the sync `first` left every gatekeeper with an entry that is
/// still good at the time `later`: the entry has not expired, and the
/// source was not modified after the entry was written.
pub open spec fn settled(first: SyncView, later: u64) -> bool {
    &&& forall|k: Seq<char>| #[trigger]
        first.is_gatekeeper(k) ==> first.result().contains_key(k) && !source_modified(
            first.state(k),
            first.result()[k].ts,
        )
    &&& forall|k: Seq<char>| #[trigger]
        first.result().contains_key(k) ==> !expired(first.result()[k], later)
}

/// A sync that follows a sync with nothing changed in between has nothing
/// to do: no gatekeeper is due, every gatekeeper is skipped as fresh, and
/// the cache it leaves holds the entries that it found.
pub proof fn lemma_second_sync_evaluates_nothing(
    first: SyncView,
    later: u64,
    outcomes: Map<Seq<char>, LuaGatekeeperResult>,
)
    requires
        settled(first, later),
    ensures
        forall|k: Seq<char>| !#[trigger] following(first, later, outcomes).is_due(k),
        forall|k: Seq<char>| #[trigger]
            first.is_gatekeeper(k) ==> following(first, later, outcomes).counts(Tally::Skipped, k),
        following(first, later, outcomes).result() == first.result(),
        forall|names: Set<Seq<char>>| #[trigger]
            following(first, later, outcomes).among(Tally::Updated, names).len() == 0,
        forall|names: Set<Seq<char>>| #[trigger]
            following(first, later, outcomes).among(Tally::Removed, names).len() == 0,
        forall|names: Set<Seq<char>>|
            (forall|k: Seq<char>| names.contains(k) ==> first.is_gatekeeper(k))
                ==> #[trigger] following(
                first,
                later,
                outcomes,
            ).among(Tally::Skipped, names).len() == names.len(),
{
    let second = following(first, later, outcomes);
    assert forall|k: Seq<char>| !#[trigger] second.is_due(k) by {
        if second.is_gatekeeper(k) {
            assert(first.is_gatekeeper(k));
        }
    }
    assert forall|k: Seq<char>| #[trigger] first.is_gatekeeper(k) implies second.counts(
        Tally::Skipped,
        k,
    ) by {}
    assert forall|k: Seq<char>| second.entry_after(k) == first.entry_after(k) by {
        if first.is_gatekeeper(k) {
            assert(first.result().contains_key(k));
        } else if first.result().contains_key(k) {
            assert(!expired(first.result()[k], later));
        }
    }
    assert(second.result() =~= first.result());
    assert forall|names: Set<Seq<char>>| #[trigger]
        second.among(Tally::Updated, names).len() == 0 by {
        assert forall|k: Seq<char>| !second.among(Tally::Updated, names).contains(k) by {
            assert(!second.is_due(k));
        }
        assert(second.among(Tally::Updated, names) =~= Set::empty());
    }
    assert forall|names: Set<Seq<char>>| #[trigger]
        second.among(Tally::Removed, names).len() == 0 by {
        assert forall|k: Seq<char>| !second.among(Tally::Removed, names).contains(k) by {
            if first.result().contains_key(k) {
                assert(!expired(first.result()[k], later));
            }
        }
        assert(second.among(Tally::Removed, names) =~= Set::empty());
    }
    assert forall|names: Set<Seq<char>>|
        (forall|k: Seq<char>| names.contains(k) ==> first.is_gatekeeper(k)) implies #[trigger] second.among(
        Tally::Skipped,
        names,
    ).len() == names.len() by {
        assert forall|k: Seq<char>| names.contains(k) implies second.counts(Tally::Skipped, k) by {
            assert(first.is_gatekeeper(k));
        }
        assert(second.among(Tally::Skipped, names) =~= names);
    }
}

/// After a sync, every name in the cache is a gatekeeper or was in the cache
/// before; and an entry of any other name is the one that was there.
pub proof fn lemma_sync_adds_only_gatekeepers(v: SyncView, name: Seq<char>)
    requires
        v.result().contains_key(name),
    ensures
        v.is_gatekeeper(name) || v.existing.contains_key(name),
        !v.is_gatekeeper(name) ==> v.result()[name] == v.existing[name],
{
}

} // verus!
